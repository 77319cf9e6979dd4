//! The rooms of the sockets, and what the database keeps.

use diesellynk::model::{EventEntry, FaultCode, LiveData, SessionState, TruckInfo};
use diesellynk::rooms::{
    heartbeat_expired, on_socket_event, SocketAnswer, SocketEvent, WsBroadcaster, PING_INTERVAL,
};
use diesellynk::session::{default_session, push_event};
use diesellynk::store::{
    init_db, is_active_after, load_orgs_from_db, load_sessions_from_db, rate_limit_cutoff, save_history,
    save_session, session_cutoff, session_from_row, OrgRow, ReadDocs, StoredSession, WrittenDocs,
};

const NOW: u64 = 1_700_000_000;

#[test]
fn sockets_come_and_go() {
    let mut b: WsBroadcaster<&str> = WsBroadcaster::new();
    assert!(b.has_room());
    assert_eq!(b.connect("DL-1".to_string(), "x"), 1);
    assert_eq!(b.connect("DL-1".to_string(), "y"), 2);
    assert_eq!(b.connect("DL-2".to_string(), "z"), 3);
    assert_eq!(b.recipients("DL-1"), vec![&"x", &"y"]);
    assert_eq!(b.recipients("DL-2"), vec![&"z"]);
    assert!(b.recipients("DL-3").is_empty());
    b.disconnect("DL-1", 1);
    assert_eq!(b.recipients("DL-1"), vec![&"y"]);
    b.disconnect("DL-1", 3);
    b.disconnect("DL-9", 2);
    assert_eq!(b.recipients("DL-1"), vec![&"y"]);
    assert_eq!(b.recipients("DL-2"), vec![&"z"]);
    b.disconnect("DL-1", 2);
    assert!(b.recipients("DL-1").is_empty());
    assert_eq!(b.connect("DL-1".to_string(), "w"), 4);
    assert_eq!(b.recipients("DL-1"), vec![&"w"]);
}

#[test]
fn coming_and_going_leaves_the_others() {
    let mut b: WsBroadcaster<u8> = WsBroadcaster::new();
    b.connect("r".to_string(), 10);
    let id = b.connect("r".to_string(), 20);
    b.disconnect("r", id);
    assert_eq!(b.recipients("r"), vec![&10]);
}

#[test]
fn a_silent_socket_is_given_up_after_thirty_seconds() {
    assert_eq!(PING_INTERVAL, 5);
    assert!(!heartbeat_expired(0));
    assert!(!heartbeat_expired(30_000_000_000));
    assert!(heartbeat_expired(30_000_000_001));
}

#[test]
fn each_socket_event_has_its_answer() {
    for (event, life, answer) in [
        (SocketEvent::Ping, true, SocketAnswer::Pong),
        (SocketEvent::Pong, true, SocketAnswer::Nothing),
        (SocketEvent::Text, true, SocketAnswer::Nothing),
        (SocketEvent::Binary, true, SocketAnswer::Nothing),
        (SocketEvent::Close, false, SocketAnswer::CloseAndStop),
        (SocketEvent::ProtocolError, false, SocketAnswer::Stop),
        (SocketEvent::Other, false, SocketAnswer::Nothing),
    ] {
        assert_eq!(on_socket_event(event), (life, answer));
    }
}

fn session() -> SessionState {
    let mut s = default_session("DL-1".to_string(), "acme".to_string(), 1, 2, NOW);
    s.requires_ack = true;
    s.show_modal = true;
    s.customer_message = "hi".to_string();
    s.nexiq_connected = true;
    s.adapter_name = "USB".to_string();
    s.service_requested = true;
    s.service_request_time = "5".to_string();
    s.service_type = "x".to_string();
    s.tablet_ws_url = "w".to_string();
    s.guac_url = "g".to_string();
    s.connected_techs = vec!["acme".to_string(), "diesellynk".to_string()];
    s.fault_codes.push(fault());
    s.truck_info = Some(truck());
    s.live_data = Some(readings());
    push_event(&mut s, "note", "first".to_string(), NOW + 1);
    push_event(&mut s, "note", "second".to_string(), NOW + 2);
    s
}

fn fault() -> FaultCode {
    FaultCode {
        spn: 100,
        fmi: 1,
        source: "Engine".to_string(),
        description: "Oil pressure low".to_string(),
        active: true,
        count: 2,
    }
}

fn truck() -> TruckInfo {
    TruckInfo {
        vin: "V".to_string(),
        make: "Mack".to_string(),
        model: "Anthem".to_string(),
        year: 2021,
        engine: "MP8".to_string(),
        odometer: None,
    }
}

fn readings() -> LiveData {
    LiveData {
        engine_rpm: Some(700.5f32.to_bits()),
        coolant_temp: None,
        oil_pressure: None,
        boost_pressure: None,
        vehicle_speed: None,
        battery_voltage: Some(13.8f32.to_bits()),
    }
}

fn written() -> WrittenDocs {
    WrittenDocs {
        fault_codes: Some("[F]".to_string()),
        truck_info: Some("{T}".to_string()),
        live_data: Some("{L}".to_string()),
        event_log: Some("[E]".to_string()),
    }
}

fn nothing_written() -> WrittenDocs {
    WrittenDocs { fault_codes: None, truck_info: None, live_data: None, event_log: None }
}

fn nothing_read() -> ReadDocs {
    ReadDocs { fault_codes: None, truck_info: None, live_data: None, event_log: None }
}

#[test]
fn a_session_is_stored_in_columns() {
    let row = save_session(&session(), written(), NOW + 9);
    assert_eq!((row.session_id.as_str(), row.org_id.as_str()), ("DL-1", "acme"));
    assert_eq!(row.driver_token, "deadbeefcafebabf");
    assert_eq!(row.tech_token, "deadbeefcafebabc");
    assert_eq!((row.requires_ack, row.customer_ack, row.show_modal), (1, 0, 1));
    assert_eq!((row.nexiq_connected, row.service_requested), (1, 1));
    assert_eq!(row.fault_codes, "[F]");
    assert_eq!(row.event_log, "[E]");
    assert_eq!(row.truck_info.as_deref(), Some("{T}"));
    assert_eq!(row.live_data.as_deref(), Some("{L}"));
    assert_eq!(row.connected_techs, "[\"acme\",\"diesellynk\"]");
    assert_eq!((row.created_at, row.last_activity), (1_700_000_009, 1_700_000_002));
    let bare = save_session(&session(), nothing_written(), NOW);
    assert_eq!((bare.fault_codes.as_str(), bare.event_log.as_str()), ("", ""));
    assert!(bare.truck_info.is_none() && bare.live_data.is_none());
}

#[test]
fn a_stored_session_reads_back() {
    let mut s = session();
    s.last_activity = u64::MAX - 3;
    let row = save_session(&s, written(), NOW);
    let docs = ReadDocs {
        fault_codes: Some(vec![fault()]),
        truck_info: Some(truck()),
        live_data: Some(readings()),
        event_log: Some(vec![
            EventEntry {
                timestamp: "1700000001".to_string(),
                kind: "note".to_string(),
                message: "first".to_string(),
            },
            EventEntry {
                timestamp: "1700000002".to_string(),
                kind: "note".to_string(),
                message: "second".to_string(),
            },
        ]),
    };
    let back = session_from_row(row, docs);
    assert_eq!(format!("{:?}", back), format!("{:?}", s));
}

#[test]
fn documents_that_cannot_be_read_count_as_empty() {
    let mut row = save_session(&session(), written(), NOW);
    row.connected_techs = "broken".to_string();
    row.requires_ack = -7;
    row.show_modal = 0;
    let s = session_from_row(row, nothing_read());
    assert!(s.fault_codes.is_empty() && s.event_log.is_empty() && s.connected_techs.is_empty());
    assert!(s.truck_info.is_none() && s.live_data.is_none());
    assert!(s.requires_ack && !s.show_modal);
}

#[test]
fn sessions_are_loaded_under_their_ids() {
    let mut rows = Vec::new();
    for (id, org) in [("DL-1", "a"), ("DL-2", "b"), ("DL-1", "c")] {
        let s = default_session(id.to_string(), org.to_string(), 1, 2, NOW);
        let row = save_session(&s, nothing_written(), NOW);
        rows.push(StoredSession { row, docs: nothing_read() });
    }
    let t = load_sessions_from_db(rows, NOW);
    assert_eq!(t.len(), 2);
    assert_eq!(t.get("DL-1").unwrap().org_id, "c");
    assert_eq!(t.get("DL-2").unwrap().session_id, "DL-2");
    assert_eq!(load_sessions_from_db(Vec::new(), NOW).len(), 0);
}

#[test]
fn only_sessions_active_in_the_last_twelve_hours_are_loaded() {
    let mut rows = Vec::new();
    for (id, at) in [("DL-1", NOW - 43200), ("DL-2", NOW - 43199), ("DL-3", NOW)] {
        let s = default_session(id.to_string(), "acme".to_string(), 1, 2, at);
        let row = save_session(&s, nothing_written(), NOW);
        assert_eq!(is_active_after(&row, session_cutoff(NOW)), id != "DL-1");
        rows.push(StoredSession { row, docs: nothing_read() });
    }
    let t = load_sessions_from_db(rows, NOW);
    assert_eq!(t.len(), 2);
    assert!(!t.contains_key("DL-1"));
    assert_eq!(t.get("DL-2").unwrap().last_activity, NOW - 43199);
}

#[test]
fn of_two_rows_of_a_session_nothing_of_the_earlier_counts() {
    let mut rows = Vec::new();
    for (status, at) in [("Working", NOW + 5), ("Session Complete", NOW)] {
        let mut s = default_session("DL-1".to_string(), "acme".to_string(), 1, 2, at);
        s.status = status.to_string();
        s.requires_ack = status == "Working";
        let row = save_session(&s, nothing_written(), NOW);
        rows.push(StoredSession { row, docs: nothing_read() });
    }
    let t = load_sessions_from_db(rows, NOW);
    let s = t.get("DL-1").unwrap();
    assert_eq!((s.status.as_str(), s.requires_ack, s.last_activity), ("Session Complete", false, NOW));
}

#[test]
fn a_later_start_names_nobody_new() {
    let setting = Some("a:1,b:2,a:3");
    let first = init_db(false, None, setting);
    for seed in init_db(true, None, setting) {
        assert!(first.iter().any(|s| s.org_id == seed.org_id));
    }
}

#[test]
fn history_keeps_the_outline_of_a_session() {
    let mut s = session();
    s.status = "Session Complete".to_string();
    let h = save_history(&s, Some("{T}".to_string()), NOW + 60);
    assert_eq!((h.session_id.as_str(), h.org_id.as_str()), ("DL-1", "acme"));
    assert_eq!((h.started_at.as_str(), h.ended_at.as_str()), ("1700000001", "1700000060"));
    assert_eq!((h.status.as_str(), h.service_type.as_str()), ("Session Complete", "x"));
    assert_eq!((h.fault_count, h.created_at), (1, 1_700_000_060));
    assert_eq!(h.truck_info.as_deref(), Some("{T}"));
    let fresh = default_session("DL-2".to_string(), "acme".to_string(), 1, 2, NOW);
    assert_eq!(save_history(&fresh, None, NOW).started_at, "");
}

#[test]
fn organisations_are_loaded_under_their_ids() {
    let row = |id: &str, flag: i32| OrgRow {
        org_id: id.to_string(),
        password: format!("{}-pw", id),
        display_name: id.to_uppercase(),
        is_diesellynk: flag,
    };
    let t = load_orgs_from_db(vec![row("diesellynk", 1), row("acme", 0)]);
    assert_eq!(t.len(), 2);
    assert!(t.get("diesellynk").unwrap().is_diesellynk);
    let acme = t.get("acme").unwrap();
    assert!(!acme.is_diesellynk);
    assert_eq!((acme.password.as_str(), acme.display_name.as_str()), ("acme-pw", "ACME"));
}

#[test]
fn a_new_database_gets_the_standard_organisations() {
    let seeds = init_db(false, None, None);
    assert_eq!(seeds.len(), 2);
    assert_eq!(seeds[0].org_id, "diesellynk");
    assert_eq!(seeds[0].display_name, "DieselLynk Internal");
    assert_eq!(seeds[0].password, "DL-master-2025!");
    assert!(seeds[0].is_diesellynk);
    assert_eq!(seeds[1].org_id, "demo_fleet");
    assert_eq!(seeds[1].display_name, "Demo Fleet");
    assert_eq!(seeds[1].password, "demo1234");
    assert!(!seeds[1].is_diesellynk);
    assert_eq!(init_db(false, Some("m".to_string()), None)[0].password, "m");
    assert!(init_db(true, Some("m".to_string()), None).is_empty());
}

#[test]
fn a_setting_names_more_organisations() {
    let seeds = init_db(true, None, Some(" acme : a:b ,nothing,,diesellynk:x,: y"));
    let list: Vec<(&str, &str, &str, bool)> = seeds
        .iter()
        .map(|s| {
            (s.org_id.as_str(), s.display_name.as_str(), s.password.as_str(), s.is_diesellynk)
        })
        .collect();
    assert_eq!(
        list,
        vec![
            ("acme", "acme", "a:b", false),
            ("diesellynk", "diesellynk", "x", true),
            ("", "", "y", false),
        ]
    );
    assert_eq!(init_db(false, None, Some("a:b")).len(), 3);
}

#[test]
fn old_rows_are_cut_off() {
    assert_eq!(session_cutoff(NOW), 1_699_956_800);
    assert_eq!(rate_limit_cutoff(NOW), 1_699_996_400);
    assert_eq!(session_cutoff(43200), 0);
}
