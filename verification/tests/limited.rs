//! Limited requests, and what follows from requests.

use diesellynk::endpoints::{admin_login, create_session, service_request, tech_login};
use diesellynk::guac::guac_config;
use diesellynk::model::{
    AdminSession, Org, ServiceRequest, SessionState, TechSession, UpdateRequest,
};
use diesellynk::outcome::conclude;
use diesellynk::rate_limit::RateLimiter;
use diesellynk::registry::CLEANUP_INTERVAL;
use diesellynk::reply::Status;
use diesellynk::session::default_session;
use diesellynk::store::{
    save_session, session_from_parts, ReadDocs, WrittenDocs, HISTORY_LIMIT,
};
use diesellynk::table::Table;
use diesellynk::technician::update_session;

const NOW: u64 = 1_700_000_000;

fn orgs() -> Table<Org> {
    let mut t = Table::new();
    t.insert(
        "acme".to_string(),
        Org {
            password: "p".to_string(),
            display_name: "Acme".to_string(),
            is_diesellynk: false,
        },
    );
    t
}

fn sessions() -> Table<SessionState> {
    let mut t = Table::new();
    let s = default_session("DL-1".to_string(), "acme".to_string(), 1, 2, NOW);
    t.insert("DL-1".to_string(), s);
    t
}

fn no_docs() -> WrittenDocs {
    WrittenDocs { fault_codes: None, truck_info: None, live_data: None, event_log: None }
}

#[test]
fn technicians_who_try_too_often_are_not_logged_in() {
    let mut limiter = RateLimiter::new();
    let mut techs: Table<TechSession> = Table::new();
    for _ in 0..10 {
        let e = tech_login(&mut limiter, "ip", &orgs(), &mut techs, "acme", "x", 7, NOW);
        assert_eq!(e.unwrap_err().body.message, "Invalid org ID or password");
    }
    let e = tech_login(&mut limiter, "ip", &orgs(), &mut techs, "acme", "p", 7, NOW).unwrap_err();
    assert_eq!(e.status, Status::TooManyRequests);
    assert_eq!(e.body.message, "Too many login attempts -- please wait");
    assert_eq!(techs.len(), 0);
    let l = tech_login(&mut limiter, "other", &orgs(), &mut techs, " ACME", "p", 7, NOW).unwrap();
    assert_eq!(l.org_id, "acme");
    assert!(tech_login(&mut limiter, "ip", &orgs(), &mut techs, "acme", "p", 8, NOW + 60).is_ok());
    assert_eq!(techs.len(), 2);
}

#[test]
fn administrators_who_try_too_often_are_not_logged_in() {
    let mut limiter = RateLimiter::new();
    let mut admins: Table<AdminSession> = Table::new();
    for _ in 0..5 {
        let e = admin_login(&mut limiter, "ip", &mut admins, "a", "p", "a", "x", 7, NOW);
        assert_eq!(e.unwrap_err().body.message, "Invalid credentials");
    }
    let e = admin_login(&mut limiter, "ip", &mut admins, "a", "p", "a", "p", 7, NOW).unwrap_err();
    assert_eq!(e.status, Status::TooManyRequests);
    assert_eq!(e.body.message, "Too many attempts");
    assert_eq!(admins.len(), 0);
    let t = admin_login(&mut limiter, "ip", &mut admins, "a", "p", " a", "p ", 7, NOW + 60);
    assert_eq!(t.unwrap(), "deadbeefcafebab9");
}

#[test]
fn clients_that_open_too_many_sessions_open_no_more() {
    let mut limiter = RateLimiter::new();
    let mut all: Table<SessionState> = Table::new();
    for i in 0..30 {
        let org = Some(" Acme ".to_string());
        let r = create_session(&mut limiter, "ip", &mut all, org, i, 1, 2, NOW).unwrap();
        assert_eq!(r.org_id, "acme");
    }
    let e = create_session(&mut limiter, "ip", &mut all, None, 99, 1, 2, NOW + 59).unwrap_err();
    assert_eq!(e.status, Status::TooManyRequests);
    assert_eq!(e.body.message, "Too many session requests");
    assert_eq!(all.len(), 30);
    assert!(create_session(&mut limiter, "ip", &mut all, None, 99, 1, 2, NOW + 60).is_ok());
}

#[test]
fn clients_that_call_too_often_change_nothing() {
    let mut limiter = RateLimiter::new();
    let mut all = sessions();
    let call = |kind: &str| ServiceRequest {
        driver_token: "deadbeefcafebabf".to_string(),
        service_type: kind.to_string(),
    };
    for _ in 0..5 {
        let r = service_request(&mut limiter, "ip", &mut all, "DL-1", &call("first"), NOW);
        assert_eq!(r.body.message, "Service request sent");
    }
    let r = service_request(&mut limiter, "ip", &mut all, "DL-1", &call("second"), NOW);
    assert_eq!(r.status, Status::TooManyRequests);
    assert_eq!(r.body.message, "Too many requests");
    assert_eq!(all.get("DL-1").unwrap().service_type, "first");
    assert_eq!(all.get("DL-1").unwrap().event_log.len(), 5);
    let r = service_request(&mut limiter, "other", &mut all, "DL-9", &call("x"), NOW);
    assert_eq!(r.status, Status::NotFound);
}

fn change(token: &str) -> UpdateRequest {
    UpdateRequest {
        tech_token: token.to_string(),
        status: "Working".to_string(),
        command: "Turn key off".to_string(),
        requires_ack: true,
        priority: "warning".to_string(),
        show_modal: false,
    }
}

#[test]
fn a_change_is_stored_and_shown() {
    let mut all = sessions();
    let gateway = guac_config(None, None, None);
    let (reply, _) =
        update_session(&mut all, "DL-1", &change("deadbeefcafebabc"), &gateway, NOW + 1);
    let o = conclude(&reply, &all, "DL-1", no_docs(), NOW + 2).unwrap();
    assert_eq!(o.room, "DL-1");
    assert_eq!(o.state.command, "Turn key off");
    assert_eq!(o.state.event_log.len(), 1);
    assert_eq!((o.row.session_id.as_str(), o.row.status.as_str()), ("DL-1", "Working"));
    assert_eq!((o.row.requires_ack, o.row.show_modal), (1, 0));
    assert_eq!((o.row.created_at, o.row.last_activity), (1_700_000_002, 1_700_000_001));
}

#[test]
fn a_refusal_is_not_stored_or_shown() {
    let mut all = sessions();
    let gateway = guac_config(None, None, None);
    let (reply, _) = update_session(&mut all, "DL-1", &change("x"), &gateway, NOW + 1);
    assert!(conclude(&reply, &all, "DL-1", no_docs(), NOW + 2).is_none());
    let (reply, _) = update_session(&mut all, "DL-9", &change("x"), &gateway, NOW + 1);
    assert!(conclude(&reply, &all, "DL-9", no_docs(), NOW + 2).is_none());
}

#[test]
fn a_row_takes_the_organisations_that_were_read() {
    let s = default_session("DL-1".to_string(), "acme".to_string(), 1, 2, NOW);
    let row = save_session(&s, no_docs(), NOW);
    let docs = ReadDocs { fault_codes: None, truck_info: None, live_data: None, event_log: None };
    let techs = vec!["a".to_string(), "b".to_string()];
    let back = session_from_parts(row, docs, techs.clone());
    assert_eq!(back.connected_techs, techs);
    assert_eq!(back.session_id, "DL-1");
}

#[test]
fn periods_and_limits_of_the_server() {
    assert_eq!(CLEANUP_INTERVAL, 300);
    assert_eq!(HISTORY_LIMIT, 500);
}
