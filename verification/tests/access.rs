//! Logging in, limits, and what administrators do.

use diesellynk::admin::{
    admin_add_org, admin_all_sessions, admin_get_orgs, admin_remove_org, admin_reset_password,
    admin_stats, check_new_org, check_removal, report_added, report_removed, report_reset,
};
use diesellynk::auth::{
    admin_clock_reaches, admin_clock_reaches_all, admin_login, admit_tech, log_tech_in,
    purge_admin_sessions, purge_tech_sessions, require_admin, tech_clock_reaches,
    tech_clock_reaches_all, tech_login, validate_admin_token, validate_tech_token, AdminPass,
};
use diesellynk::model::{AdminSession, Org, SessionState, TechSession};
use diesellynk::rate_limit::{
    admit_request, check_rate_limit, endpoint_key, rate_key_of, Endpoint, RateLimiter,
};
use diesellynk::reply::{Reply, Status};
use diesellynk::session::default_session;
use diesellynk::table::Table;

const NOW: u64 = 1_700_000_000;

fn says(r: &Reply, status: Status, ok: bool, message: &str) {
    assert_eq!(r.status, status);
    assert_eq!(r.body.ok, ok);
    assert_eq!(r.body.message, message);
}

fn orgs() -> Table<Org> {
    let mut t = Table::new();
    for (id, password, name, is_dl) in [
        ("diesellynk", "master", "DieselLynk Internal", true),
        ("acme", "s3cret", "Acme", false),
    ] {
        t.insert(
            id.to_string(),
            Org {
                password: password.to_string(),
                display_name: name.to_string(),
                is_diesellynk: is_dl,
            },
        );
    }
    t
}

fn pass() -> AdminPass {
    let mut admins: Table<AdminSession> = Table::new();
    let token = admin_login(&mut admins, "admin", "pw", "admin", "pw", 1, NOW).unwrap();
    match require_admin(&admins, Some(&token), NOW) {
        Ok(p) => p,
        Err(e) => panic!("{:?}", e),
    }
}

#[test]
fn technicians_log_in_with_what_they_type() {
    let mut techs: Table<TechSession> = Table::new();
    let l = tech_login(&orgs(), &mut techs, " ACME ", " s3cret\n", 7, NOW).unwrap();
    assert_eq!(l.tech_auth_token, "deadbeefcafebab9");
    assert_eq!((l.org_id.as_str(), l.is_diesellynk), ("acme", false));
    let t = techs.get("deadbeefcafebab9").unwrap();
    assert_eq!(t.tech_auth_token, "deadbeefcafebab9");
    assert_eq!((t.org_id.as_str(), t.is_diesellynk), ("acme", false));
    assert_eq!((t.created_at, t.last_seen), (NOW, NOW));
    let l = tech_login(&orgs(), &mut techs, "DieselLynk", "master", 8, NOW).unwrap();
    assert!(l.is_diesellynk);
    assert_eq!(techs.len(), 2);
}

#[test]
fn a_wrong_password_or_organisation_is_refused() {
    let mut techs: Table<TechSession> = Table::new();
    for (org, password) in [("acme", "S3cret"), ("acme", ""), ("nobody", "s3cret")] {
        let e = tech_login(&orgs(), &mut techs, org, password, 7, NOW).unwrap_err();
        says(&e, Status::Unauthorized, false, "Invalid org ID or password");
    }
    let e = log_tech_in(&orgs(), &mut techs, "ACME".to_string(), "s3cret", 7, NOW).unwrap_err();
    says(&e, Status::Unauthorized, false, "Invalid org ID or password");
    assert!(log_tech_in(&orgs(), &mut techs, "acme".to_string(), "s3cret", 7, NOW).is_ok());
    assert_eq!(techs.len(), 1);
}

#[test]
fn a_login_lasts_eight_hours_from_the_last_activity() {
    let mut techs: Table<TechSession> = Table::new();
    let token = tech_login(&orgs(), &mut techs, "acme", "s3cret", 7, NOW).unwrap().tech_auth_token;
    assert!(validate_tech_token(&techs, &token, NOW + 28799).is_some());
    assert!(validate_tech_token(&techs, &token, NOW + 28800).is_none());
    assert!(validate_tech_token(&techs, "other", NOW).is_none());
    let before = admit_tech(&mut techs, Some(&token), NOW + 28799).unwrap();
    assert_eq!(before.last_seen, NOW);
    assert_eq!(techs.get(&token).unwrap().last_seen, NOW + 28799);
    assert_eq!(techs.get(&token).unwrap().created_at, NOW);
    assert!(validate_tech_token(&techs, &token, NOW + 57598).is_some());
    assert!(validate_tech_token(&techs, &token, NOW + 57599).is_none());
    assert!(admit_tech(&mut techs, None, NOW).is_none());
    assert!(admit_tech(&mut techs, Some(&token), NOW + 57599).is_none());
}

#[test]
fn dropping_stale_logins_changes_no_answer() {
    let mut techs: Table<TechSession> = Table::new();
    tech_login(&orgs(), &mut techs, "acme", "s3cret", 7, NOW).unwrap();
    tech_login(&orgs(), &mut techs, "acme", "s3cret", 8, NOW + 10).unwrap();
    assert!(tech_clock_reaches_all(&techs, NOW + 28805));
    purge_tech_sessions(&mut techs, NOW + 28805);
    assert_eq!(techs.len(), 1);
    assert!(validate_tech_token(&techs, "deadbeefcafebab6", NOW + 28805).is_some());
    let mut admins: Table<AdminSession> = Table::new();
    admin_login(&mut admins, "a", "p", "a", "p", 1, NOW).unwrap();
    admin_login(&mut admins, "a", "p", "a", "p", 2, NOW + 10).unwrap();
    assert!(admin_clock_reaches_all(&admins, NOW + 86405));
    purge_admin_sessions(&mut admins, NOW + 86405);
    assert_eq!(admins.len(), 1);
    assert!(validate_admin_token(&admins, "deadbeefcafebabc", NOW + 86405));
}

#[test]
fn a_clock_that_falls_behind_is_noticed() {
    let mut techs: Table<TechSession> = Table::new();
    let token = tech_login(&orgs(), &mut techs, "acme", "s3cret", 7, NOW).unwrap().tech_auth_token;
    assert!(tech_clock_reaches(&techs, &token, NOW));
    assert!(!tech_clock_reaches(&techs, &token, NOW - 1));
    assert!(tech_clock_reaches(&techs, "other", 0));
    assert!(!tech_clock_reaches_all(&techs, NOW - 1));
    let mut admins: Table<AdminSession> = Table::new();
    let token = admin_login(&mut admins, "a", "p", "a", "p", 1, NOW).unwrap();
    assert!(admin_clock_reaches(&admins, &token, NOW));
    assert!(!admin_clock_reaches(&admins, &token, NOW - 1));
    assert!(admin_clock_reaches(&admins, "other", 0));
    assert!(!admin_clock_reaches_all(&admins, NOW - 1));
    let mut limiter = RateLimiter::new();
    limiter.check("k", 1, 60, NOW);
    assert!(limiter.clock_reaches("k", NOW) && !limiter.clock_reaches("k", NOW - 1));
    assert!(limiter.clock_reaches("other", 0));
    assert!(limiter.clock_reaches_all(NOW) && !limiter.clock_reaches_all(NOW - 1));
}

#[test]
fn administrators_log_in_for_a_day() {
    let mut admins: Table<AdminSession> = Table::new();
    let token = admin_login(&mut admins, "admin", "DL-Admin-2025!", " admin", "DL-Admin-2025! ", 1, NOW);
    let token = token.unwrap();
    assert_eq!(token, "deadbeefcafebabf");
    assert_eq!(admins.get(&token).unwrap().created_at, NOW);
    assert_eq!(admins.get(&token).unwrap().token, token);
    assert!(require_admin(&admins, Some(&token), NOW + 86399).is_ok());
    for (t, at) in [(Some(token.as_str()), NOW + 86400), (Some("x"), NOW), (None, NOW)] {
        match require_admin(&admins, t, at) {
            Ok(_) => panic!("let in"),
            Err(e) => says(&e, Status::Unauthorized, false, "Unauthorized"),
        }
    }
    for (user, password) in [("Admin", "DL-Admin-2025!"), ("admin", "x"), ("", "")] {
        let e = admin_login(&mut admins, "admin", "DL-Admin-2025!", user, password, 2, NOW);
        says(&e.unwrap_err(), Status::Unauthorized, false, "Invalid credentials");
    }
    assert_eq!(admins.len(), 1);
}

#[test]
fn a_window_lets_the_first_requests_through() {
    let mut limiter = RateLimiter::new();
    for i in 0..3 {
        assert!(limiter.check("k", 3, 60, NOW + i));
    }
    assert!(!limiter.check("k", 3, 60, NOW + 3));
    assert!(!limiter.check("k", 3, 60, NOW + 59));
    assert!(limiter.check("other", 3, 60, NOW + 59));
    assert!(limiter.check("k", 3, 60, NOW + 60));
    assert!(limiter.check("k", 3, 60, NOW + 61));
    assert!(limiter.check("k", 3, 60, NOW + 119));
    assert!(!limiter.check("k", 3, 60, NOW + 119));
}

#[test]
fn two_windows_may_meet_in_a_short_span() {
    let mut limiter = RateLimiter::new();
    assert!(limiter.check("k", 3, 60, NOW));
    let mut let_through = 0;
    for at in 55..=65 {
        if limiter.check("k", 3, 60, NOW + at) {
            let_through += 1;
        }
    }
    assert_eq!(let_through, 5);
}

#[test]
fn a_limit_of_nothing_lets_nothing_through_in_its_window() {
    let mut limiter = RateLimiter::new();
    assert!(!limiter.check("k", 0, 60, NOW));
    assert!(!limiter.check("k", 0, 60, NOW + 59));
    assert!(limiter.check("k", 0, 60, NOW + 60));
    assert!(RateLimiter::new().check("k", 0, 0, NOW));
}

#[test]
fn cleaning_up_changes_no_answer() {
    let mut limiter = RateLimiter::new();
    let mut uncleaned = RateLimiter::new();
    for l in [&mut limiter, &mut uncleaned] {
        l.check("old", 1, 60, NOW);
        l.check("new", 1, 60, NOW + 3590);
    }
    limiter.cleanup(NOW + 3600);
    for (key, expected) in [("old", true), ("new", false), ("fresh", true)] {
        assert_eq!(limiter.check(key, 1, 60, NOW + 3600), expected);
        assert_eq!(uncleaned.check(key, 1, 60, NOW + 3600), expected);
    }
}

#[test]
fn cleaning_up_changes_no_answer_for_a_window_without_length() {
    for limit in [0, 1] {
        let mut limiter = RateLimiter::new();
        let mut uncleaned = RateLimiter::new();
        for l in [&mut limiter, &mut uncleaned] {
            assert!(l.check("k", limit, 0, NOW));
        }
        limiter.cleanup(NOW + 3600);
        assert!(limiter.check("k", limit, 0, NOW + 3600));
        assert!(uncleaned.check("k", limit, 0, NOW + 3600));
    }
}

#[test]
fn requests_are_counted_by_client_and_endpoint() {
    assert_eq!(rate_key_of("1.2.3.4", "tech-login"), "1.2.3.4:tech-login");
    assert_eq!(endpoint_key(Endpoint::TechLogin, "::1"), "::1:tech-login");
    assert_eq!(endpoint_key(Endpoint::CreateSession, "a"), "a:create-session");
    assert_eq!(endpoint_key(Endpoint::ServiceRequest, "a"), "a:service-request");
    assert_eq!(endpoint_key(Endpoint::AdminLogin, "a"), "a:admin-login");
    let mut limiter = RateLimiter::new();
    assert!(check_rate_limit(&mut limiter, "a", "e", 1, 60, NOW));
    assert!(!check_rate_limit(&mut limiter, "a", "e", 1, 60, NOW));
    assert!(check_rate_limit(&mut limiter, "b", "e", 1, 60, NOW));
    assert!(check_rate_limit(&mut limiter, "a", "f", 1, 60, NOW));
}

#[test]
fn each_endpoint_has_its_limit_and_its_refusal() {
    for (e, limit, message) in [
        (Endpoint::TechLogin, 10, "Too many login attempts -- please wait"),
        (Endpoint::CreateSession, 30, "Too many session requests"),
        (Endpoint::ServiceRequest, 5, "Too many requests"),
        (Endpoint::AdminLogin, 5, "Too many attempts"),
    ] {
        let mut limiter = RateLimiter::new();
        for _ in 0..limit {
            assert!(admit_request(&mut limiter, e, "ip", NOW).is_none());
        }
        let r = admit_request(&mut limiter, e, "ip", NOW + 59).unwrap();
        says(&r, Status::TooManyRequests, false, message);
        assert!(admit_request(&mut limiter, e, "other", NOW).is_none());
        assert!(admit_request(&mut limiter, e, "ip", NOW + 60).is_none());
    }
}

#[test]
fn an_organisation_is_added_tidied() {
    let o = admin_add_org(pass(), " New_Fleet ", " pw ", " New Fleet ").unwrap();
    assert_eq!(o.org_id, "new_fleet");
    assert_eq!(o.display_name, "New Fleet");
    assert_eq!(o.password, "pw");
    for (id, password) in [("  ", "pw"), ("x", " \t")] {
        let e = admin_add_org(pass(), id, password, "n").unwrap_err();
        says(&e, Status::BadRequest, false, "org_id and password required");
    }
    assert!(check_new_org("X".to_string(), "p", "").is_ok());
    let e = check_new_org(String::new(), "p", "").unwrap_err();
    says(&e, Status::BadRequest, false, "org_id and password required");
}

#[test]
fn adding_an_organisation_is_reported() {
    says(&report_added("x", None), Status::Success, true, "Org 'x' created");
    let taken = Some("UNIQUE constraint failed: orgs.org_id".to_string());
    says(&report_added("x", taken), Status::Conflict, false, "Org already exists");
    let broken = Some("disk I/O error".to_string());
    says(&report_added("x", broken), Status::InternalServerError, false, "disk I/O error");
}

#[test]
fn an_organisation_is_removed_unless_it_is_the_operator() {
    assert_eq!(admin_remove_org(pass(), " ACME ").unwrap(), "acme");
    let e = admin_remove_org(pass(), " DieselLynk ").unwrap_err();
    says(&e, Status::BadRequest, false, "Cannot remove DieselLynk org");
    assert_eq!(check_removal("acme".to_string()).unwrap(), "acme");
    assert!(check_removal("diesellynk".to_string()).is_err());
    says(&report_removed("acme", 1), Status::Success, true, "Org 'acme' removed");
    says(&report_removed("acme", 0), Status::NotFound, false, "Org not found");
}

#[test]
fn a_password_is_reset_for_an_id_as_typed() {
    let r = admin_reset_password(pass(), " Acme ", " new ");
    assert_eq!((r.org_id.as_str(), r.password.as_str()), ("Acme", "new"));
    says(&report_reset(" Acme ", 1), Status::Success, true, "Password updated for ' Acme '");
    says(&report_reset("x", 0), Status::NotFound, false, "Org not found");
}

fn sessions() -> Table<SessionState> {
    let mut t = Table::new();
    for (id, org) in [("DL-1", "acme"), ("DL-2", "acme"), ("DL-3", "diesellynk")] {
        let mut s = default_session(id.to_string(), org.to_string(), 1, 2, NOW);
        if id == "DL-1" {
            s.service_requested = true;
            s.tablet_ws_url = "wss://t".to_string();
            s.connected_techs = vec!["a".to_string(), "b".to_string()];
        }
        if id != "DL-2" {
            s.nexiq_connected = true;
        }
        if id == "DL-3" {
            s.connected_techs = vec!["a".to_string()];
        }
        t.insert(id.to_string(), s);
    }
    t
}

#[test]
fn organisations_are_listed_with_their_counts() {
    let mut techs: Table<TechSession> = Table::new();
    tech_login(&orgs(), &mut techs, "acme", "s3cret", 7, NOW).unwrap();
    let list = admin_get_orgs(pass(), &orgs(), &sessions(), &techs);
    assert_eq!(list.len(), 2);
    assert_eq!(list[0].org_id, "diesellynk");
    assert_eq!(list[0].display_name, "DieselLynk Internal");
    assert!(list[0].is_diesellynk && list[0].password_set);
    assert_eq!((list[0].session_count, list[0].active_techs), (1, 0));
    assert_eq!(list[1].org_id, "acme");
    assert!(!list[1].is_diesellynk);
    assert_eq!((list[1].session_count, list[1].active_techs), (2, 1));
}

#[test]
fn all_sessions_are_listed() {
    let list = admin_all_sessions(pass(), &sessions());
    assert_eq!(list.len(), 3);
    assert_eq!(list[0].session_id, "DL-1");
    assert_eq!(list[0].tablet_ws_url, "wss://t");
    assert_eq!(list[0].connected_tech_count, 2);
    assert!(list[0].service_requested && list[0].nexiq_connected);
    assert_eq!(list[2].org_id, "diesellynk");
    assert_eq!(list[2].fault_code_count, 0);
}

#[test]
fn the_service_is_counted() {
    let mut techs: Table<TechSession> = Table::new();
    tech_login(&orgs(), &mut techs, "acme", "s3cret", 7, NOW).unwrap();
    let s = admin_stats(pass(), &sessions(), &techs, &orgs(), 17);
    assert_eq!((s.total_sessions, s.active_techs, s.total_orgs), (3, 1, 2));
    assert_eq!((s.service_requested, s.nexiq_connected), (1, 2));
    assert_eq!((s.multi_tech_sessions, s.total_history), (1, 17));
}
