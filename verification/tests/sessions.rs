//! Sessions: opening, changing, showing, expiring.

use diesellynk::guac::{guac_config, GuacConfig};
use diesellynk::model::{
    CustomerReplyRequest, FaultCode, LiveData, ManualTruckInfoRequest, NexiqStatusRequest,
    ServiceRequest, SessionState, TechSession, TruckInfo, UpdateRequest,
};
use diesellynk::registry::{
    create_session, expire_sessions, get_session, open_session, publish, tablet_info, ws_route,
};
use diesellynk::reply::{Reply, Status};
use diesellynk::session::{
    customer_reply, default_session, enter_truck, manual_truck_info, nexiq_status, push_event,
    register_tablet, service_request, tablet_register,
};
use diesellynk::table::Table;
use diesellynk::technician::{
    active_sessions, ends_session, leaves_history, summary_of, tech_join, update_session,
};

const NOW: u64 = 1_700_000_000;

fn session(id: &str, org: &str) -> SessionState {
    default_session(id.to_string(), org.to_string(), 1, 2, NOW)
}

fn sessions(list: &[(&str, &str)]) -> Table<SessionState> {
    let mut t = Table::new();
    for (id, org) in list {
        t.insert(id.to_string(), session(id, org));
    }
    t
}

fn driver() -> String {
    "deadbeefcafebabf".to_string()
}

fn technician() -> String {
    "deadbeefcafebabc".to_string()
}

fn techs(list: &[(&str, &str, bool)]) -> Table<TechSession> {
    let mut t = Table::new();
    for (token, org, is_dl) in list {
        t.insert(
            token.to_string(),
            TechSession {
                tech_auth_token: token.to_string(),
                org_id: org.to_string(),
                is_diesellynk: *is_dl,
                created_at: NOW,
                last_seen: NOW,
            },
        );
    }
    t
}

fn no_gateway() -> GuacConfig {
    guac_config(None, None, None)
}

fn says(r: &Reply, status: Status, ok: bool, message: &str) {
    assert_eq!(r.status, status);
    assert_eq!(r.body.ok, ok);
    assert_eq!(r.body.message, message);
}

fn last_event(s: &SessionState) -> (String, String, String) {
    let e = s.event_log.last().unwrap();
    (e.timestamp.clone(), e.kind.clone(), e.message.clone())
}

fn truck() -> TruckInfo {
    TruckInfo {
        vin: "1FUJ".to_string(),
        make: "Freightliner".to_string(),
        model: "Cascadia".to_string(),
        year: 2020,
        engine: "DD15".to_string(),
        odometer: Some(123),
    }
}

fn fault(spn: u32) -> FaultCode {
    FaultCode {
        spn,
        fmi: 3,
        source: "Engine".to_string(),
        description: "Voltage high".to_string(),
        active: true,
        count: 1,
    }
}

fn report(connected: bool) -> NexiqStatusRequest {
    NexiqStatusRequest {
        driver_token: driver(),
        connected,
        adapter_name: "USB-Link 2".to_string(),
        truck_info: None,
        fault_codes: None,
        live_data: None,
    }
}

fn update(status: &str) -> UpdateRequest {
    UpdateRequest {
        tech_token: technician(),
        status: status.to_string(),
        command: "Turn key off".to_string(),
        requires_ack: true,
        priority: "warning".to_string(),
        show_modal: true,
    }
}

#[test]
fn a_session_begins_with_defaults() {
    let s = session("DL-1", "acme");
    assert_eq!(s.session_id, "DL-1");
    assert_eq!(s.org_id, "acme");
    assert_eq!(s.driver_token, driver());
    assert_eq!(s.tech_token, technician());
    assert_eq!(s.status, "Awaiting Technician");
    assert_eq!(s.command, "Session created -- standby for tech connection");
    assert_eq!(s.priority, "info");
    assert!(!s.requires_ack && !s.customer_ack && !s.show_modal);
    assert!(!s.nexiq_connected && !s.service_requested);
    assert!(s.customer_message.is_empty() && s.adapter_name.is_empty());
    assert!(s.service_request_time.is_empty() && s.service_type.is_empty());
    assert!(s.tablet_ws_url.is_empty() && s.guac_url.is_empty());
    assert!(s.fault_codes.is_empty() && s.event_log.is_empty() && s.connected_techs.is_empty());
    assert!(s.truck_info.is_none() && s.live_data.is_none());
    assert_eq!(s.last_activity, NOW);
}

#[test]
fn the_log_keeps_the_newest_two_hundred() {
    let mut s = session("DL-1", "acme");
    for i in 0..205u64 {
        push_event(&mut s, "note", format!("line {}", i), NOW + i);
    }
    assert_eq!(s.event_log.len(), 200);
    assert_eq!(s.event_log[0].message, "line 5");
    assert_eq!(s.event_log[199].message, "line 204");
    assert_eq!(s.event_log[199].timestamp, "1700000204");
    assert_eq!(s.event_log[199].kind, "note");
    assert_eq!(s.last_activity, NOW + 204);
}

#[test]
fn a_session_is_opened_for_an_organisation() {
    let mut all: Table<SessionState> = Table::new();
    let r = create_session(&mut all, Some(" Acme ".to_string()), 1_700_000_000_000, 1, 2, NOW);
    assert_eq!(r.session_id, "DL-18BCFE56800");
    assert_eq!(r.org_id, "acme");
    assert_eq!(r.driver_token, driver());
    assert_eq!(r.tech_token, technician());
    assert_eq!(r.tech_url, "/tech.html?session=DL-18BCFE56800&org=acme");
    assert_eq!(r.driver_url, "/index.html?session=DL-18BCFE56800&org=acme");
    let shown = get_session(&all, "DL-18BCFE56800").unwrap();
    assert_eq!(shown.org_id, "acme");
    assert_eq!(shown.status, "Awaiting Technician");
    assert_eq!(all.len(), 1);
}

#[test]
fn a_session_without_an_organisation_is_unknown() {
    let mut all: Table<SessionState> = Table::new();
    assert_eq!(create_session(&mut all, None, 255, 1, 2, NOW).org_id, "unknown");
    assert_eq!(create_session(&mut all, Some("  ".to_string()), 256, 1, 2, NOW).org_id, "");
    assert!(all.contains_key("DL-FF") && all.contains_key("DL-100"));
}

#[test]
fn a_session_under_the_same_id_gives_way() {
    let mut all = sessions(&[("DL-1", "old")]);
    open_session(&mut all, "new".to_string(), 1, 3, 4, NOW);
    assert_eq!(all.len(), 1);
    assert_eq!(all.get("DL-1").unwrap().org_id, "new");
}

#[test]
fn a_socket_finds_its_session_or_begins_it() {
    let mut all = sessions(&[("DL-1", "acme")]);
    let found = ws_route(&mut all, Some("DL-1".to_string()), Some("x".to_string()), 3, 4, NOW);
    assert_eq!((found.session_id.as_str(), found.created), ("DL-1", false));
    assert_eq!(all.get("DL-1").unwrap().org_id, "acme");
    let begun = ws_route(&mut all, Some("DL-2".to_string()), Some("X".to_string()), 3, 4, NOW);
    assert_eq!((begun.session_id.as_str(), begun.created), ("DL-2", true));
    assert_eq!(all.get("DL-2").unwrap().org_id, "X");
    let plain = ws_route(&mut all, None, None, 3, 4, NOW);
    assert_eq!((plain.session_id.as_str(), plain.created), ("DL-default", true));
    assert_eq!(all.get("DL-default").unwrap().org_id, "unknown");
    assert!(!ws_route(&mut all, None, None, 3, 4, NOW).created);
}

#[test]
fn a_session_that_is_not_there_is_not_shown() {
    let all = sessions(&[("DL-1", "acme")]);
    says(&get_session(&all, "DL-2").unwrap_err(), Status::NotFound, false, "Session not found");
}

#[test]
fn what_is_shown_does_not_depend_on_the_tokens() {
    let a = publish(&default_session("DL-1".to_string(), "acme".to_string(), 1, 2, NOW));
    let b = publish(&default_session("DL-1".to_string(), "acme".to_string(), 3, 4, NOW));
    assert_eq!(format!("{:?}", a), format!("{:?}", b));
    assert!(!format!("{:?}", a).contains(&driver()));
}

#[test]
fn everything_but_the_tokens_is_shown() {
    let mut s = session("DL-1", "acme");
    s.fault_codes.push(fault(100));
    s.truck_info = Some(truck());
    s.live_data = Some(LiveData {
        engine_rpm: Some(1.5f32.to_bits()),
        coolant_temp: None,
        oil_pressure: None,
        boost_pressure: None,
        vehicle_speed: None,
        battery_voltage: None,
    });
    s.connected_techs.push("acme".to_string());
    push_event(&mut s, "note", "hello".to_string(), NOW + 1);
    let p = publish(&s);
    assert_eq!(p.fault_codes.len(), 1);
    assert_eq!(p.fault_codes[0].spn, 100);
    assert_eq!(p.truck_info.unwrap().vin, "1FUJ");
    assert_eq!(p.live_data.unwrap().engine_rpm, Some(1.5f32.to_bits()));
    assert_eq!(p.connected_techs, vec!["acme"]);
    assert_eq!(p.event_log[0].message, "hello");
    assert_eq!(p.last_activity, NOW + 1);
}

#[test]
fn driver_requests_need_the_session_and_its_driver_token() {
    let mut all = sessions(&[("DL-1", "acme")]);
    let wrong = CustomerReplyRequest {
        driver_token: technician(),
        customer_ack: true,
        customer_message: "ok".to_string(),
    };
    let r = customer_reply(&mut all, "DL-1", &wrong, NOW + 5);
    says(&r, Status::Unauthorized, false, "Invalid driver token");
    let r = customer_reply(&mut all, "DL-9", &wrong, NOW + 5);
    says(&r, Status::NotFound, false, "Session not found");
    let call = ServiceRequest { driver_token: "x".to_string(), service_type: "t".to_string() };
    let r = service_request(&mut all, "DL-1", &call, NOW + 5);
    says(&r, Status::Unauthorized, false, "Invalid driver token");
    let mut bad = report(true);
    bad.driver_token = "x".to_string();
    let r = nexiq_status(&mut all, "DL-1", bad, NOW + 5);
    says(&r, Status::Unauthorized, false, "Invalid driver token");
    let r = nexiq_status(&mut all, "DL-9", report(true), NOW + 5);
    says(&r, Status::NotFound, false, "Session not found");
    let r = register_tablet(&mut all, "DL-1", "x", "w".to_string(), "g".to_string(), NOW + 5);
    says(&r, Status::Unauthorized, false, "Invalid driver token");
    let s = all.get("DL-1").unwrap();
    assert_eq!(s.last_activity, NOW);
    assert!(s.event_log.is_empty());
}

#[test]
fn an_opened_session_admits_its_own_tokens() {
    let mut all: Table<SessionState> = Table::new();
    let opened = create_session(&mut all, None, 5, 1, 2, NOW);
    for (token, drives, leads) in
        [(&opened.driver_token, true, false), (&opened.tech_token, false, true)]
    {
        let answer = CustomerReplyRequest {
            driver_token: token.clone(),
            customer_ack: false,
            customer_message: String::new(),
        };
        assert_eq!(customer_reply(&mut all, "DL-5", &answer, NOW).body.ok, drives);
        let mut change = update("Working");
        change.tech_token = token.clone();
        let (r, _) = update_session(&mut all, "DL-5", &change, &no_gateway(), NOW);
        assert_eq!(r.body.ok, leads);
    }
}

#[test]
fn an_acknowledgement_settles_the_demand() {
    let mut all = sessions(&[("DL-1", "acme"), ("DL-2", "acme")]);
    update_session(&mut all, "DL-1", &update("Working"), &no_gateway(), NOW + 1);
    let ack = CustomerReplyRequest {
        driver_token: driver(),
        customer_ack: true,
        customer_message: "done".to_string(),
    };
    let r = customer_reply(&mut all, "DL-1", &ack, NOW + 2);
    says(&r, Status::Success, true, "Reply received");
    let s = all.get("DL-1").unwrap();
    assert!(s.customer_ack && !s.requires_ack && !s.show_modal);
    assert_eq!(s.customer_message, "done");
    assert_eq!(s.last_activity, NOW + 2);
    assert_eq!(
        last_event(s),
        (
            "1700000002".to_string(),
            "driver_reply".to_string(),
            "Driver: ack=true | 'done'".to_string()
        )
    );
    assert_eq!((s.session_id.as_str(), s.org_id.as_str()), ("DL-1", "acme"));
    assert_eq!((s.driver_token.clone(), s.tech_token.clone()), (driver(), technician()));
    let other = all.get("DL-2").unwrap();
    assert!(other.event_log.is_empty());
}

#[test]
fn another_answer_leaves_the_demand_standing() {
    let mut all = sessions(&[("DL-1", "acme")]);
    update_session(&mut all, "DL-1", &update("Working"), &no_gateway(), NOW + 1);
    let answer = CustomerReplyRequest {
        driver_token: driver(),
        customer_ack: false,
        customer_message: "which key?".to_string(),
    };
    customer_reply(&mut all, "DL-1", &answer, NOW + 2);
    let s = all.get("DL-1").unwrap();
    assert!(!s.customer_ack && s.requires_ack && s.show_modal);
    assert_eq!(last_event(s).2, "Driver: ack=false | 'which key?'");
}

#[test]
fn a_call_for_service_is_recorded() {
    let mut all = sessions(&[("DL-1", "acme")]);
    let call = ServiceRequest {
        driver_token: driver(),
        service_type: "diesellynk_tech".to_string(),
    };
    let r = service_request(&mut all, "DL-1", &call, NOW + 3);
    says(&r, Status::Success, true, "Service request sent");
    let s = all.get("DL-1").unwrap();
    assert!(s.service_requested);
    assert_eq!(s.service_request_time, "1700000003");
    assert_eq!(s.service_type, "diesellynk_tech");
    assert_eq!(s.status, "Service Requested");
    assert_eq!(s.command, "Connecting you to a technician -- please stand by");
    assert_eq!(s.priority, "action");
    assert_eq!(last_event(s).1, "service_request");
    assert_eq!(last_event(s).2, "Driver requested service -- type: diesellynk_tech");
}

#[test]
fn an_adapter_that_comes_is_logged_with_its_truck() {
    let mut all = sessions(&[("DL-1", "acme")]);
    let mut req = report(true);
    req.truck_info = Some(truck());
    req.fault_codes = Some(vec![fault(1), fault(2)]);
    req.live_data = Some(LiveData {
        engine_rpm: None,
        coolant_temp: Some(90.0f32.to_bits()),
        oil_pressure: None,
        boost_pressure: None,
        vehicle_speed: None,
        battery_voltage: None,
    });
    let r = nexiq_status(&mut all, "DL-1", req, NOW + 4);
    says(&r, Status::Success, true, "Nexiq status updated");
    let s = all.get("DL-1").unwrap();
    assert!(s.nexiq_connected);
    assert_eq!(s.adapter_name, "USB-Link 2");
    assert_eq!(s.live_data.unwrap().coolant_temp, Some(90.0f32.to_bits()));
    let log: Vec<(&str, &str)> =
        s.event_log.iter().map(|e| (e.kind.as_str(), e.message.as_str())).collect();
    assert_eq!(
        log,
        vec![
            ("nexiq", "Nexiq connected: USB-Link 2"),
            ("truck_id", "VIN: 1FUJ | 2020 Freightliner Cascadia DD15"),
            ("fault_codes", "2 fault code(s) detected"),
        ]
    );
}

#[test]
fn what_a_report_leaves_out_stays() {
    let mut all = sessions(&[("DL-1", "acme")]);
    let mut req = report(true);
    req.truck_info = Some(truck());
    req.fault_codes = Some(vec![fault(1)]);
    nexiq_status(&mut all, "DL-1", req, NOW + 4);
    nexiq_status(&mut all, "DL-1", report(true), NOW + 5);
    let s = all.get("DL-1").unwrap();
    assert_eq!(s.truck_info.as_ref().unwrap().vin, "1FUJ");
    assert_eq!(s.fault_codes.len(), 1);
    assert_eq!(s.event_log.len(), 4);
    assert_eq!(last_event(s).2, "1 fault code(s) detected");
    let mut cleared = report(false);
    cleared.fault_codes = Some(Vec::new());
    nexiq_status(&mut all, "DL-1", cleared, NOW + 6);
    let s = all.get("DL-1").unwrap();
    assert!(s.fault_codes.is_empty() && !s.nexiq_connected);
    assert_eq!(last_event(s).2, "Nexiq disconnected");
    assert_eq!(s.event_log.len(), 5);
}

#[test]
fn a_report_without_news_is_no_activity() {
    let mut all = sessions(&[("DL-1", "acme")]);
    nexiq_status(&mut all, "DL-1", report(false), NOW + 9);
    let s = all.get("DL-1").unwrap();
    assert_eq!(s.last_activity, NOW);
    assert!(s.event_log.is_empty());
    assert_eq!(s.adapter_name, "USB-Link 2");
    nexiq_status(&mut all, "DL-1", report(true), NOW + 9);
    assert_eq!(all.get("DL-1").unwrap().last_activity, NOW + 9);
    assert_eq!(all.get("DL-1").unwrap().event_log.len(), 1);
}

fn typed() -> ManualTruckInfoRequest {
    ManualTruckInfoRequest {
        driver_token: driver(),
        vin: " 1fuj ".to_string(),
        make: " Mack".to_string(),
        model: "Anthem ".to_string(),
        year: 2021,
        engine: " MP8 ".to_string(),
        odometer: None,
    }
}

#[test]
fn a_typed_truck_record_is_tidied() {
    let mut all = sessions(&[("DL-1", "acme")]);
    let r = manual_truck_info(&mut all, "DL-1", &typed(), NOW + 5);
    says(&r, Status::Success, true, "Truck info saved");
    let s = all.get("DL-1").unwrap();
    let t = s.truck_info.as_ref().unwrap();
    assert_eq!((t.vin.as_str(), t.make.as_str(), t.model.as_str()), ("1FUJ", "Mack", "Anthem"));
    assert_eq!((t.year, t.engine.as_str(), t.odometer), (2021, "MP8", None));
    assert_eq!(last_event(s).1, "truck_id");
    assert_eq!(last_event(s).2, "Manual entry: 2021  Mack Anthem   MP8  (VIN:  1fuj )");
    let mut bad = typed();
    bad.driver_token = "x".to_string();
    let r = manual_truck_info(&mut all, "DL-1", &bad, NOW + 5);
    says(&r, Status::Unauthorized, false, "Invalid driver token");
}

#[test]
fn a_typed_number_is_kept_in_the_spelling_given() {
    let mut all = sessions(&[("DL-1", "acme")]);
    enter_truck(&mut all, "DL-1", &typed(), "straße".to_string(), NOW + 5);
    assert_eq!(all.get("DL-1").unwrap().truck_info.as_ref().unwrap().vin, "straße");
    let mut req = typed();
    req.vin = "straße".to_string();
    manual_truck_info(&mut all, "DL-1", &req, NOW + 5);
    assert_eq!(all.get("DL-1").unwrap().truck_info.as_ref().unwrap().vin, "STRASSE");
}

#[test]
fn a_tablet_registers_its_addresses() {
    let mut all = sessions(&[("DL-1", "acme")]);
    let doc: serde_json::Value = serde_json::from_str(
        "{\"driver_token\":\"deadbeefcafebabf\",\"ws_url\":\"wss://t\",\"guac_url\":\"https://g\"}",
    )
    .unwrap();
    let r = tablet_register(&mut all, "DL-1", &doc, NOW + 6);
    says(&r, Status::Success, true, "Tablet registered");
    let s = all.get("DL-1").unwrap();
    assert_eq!(s.tablet_ws_url, "wss://t");
    assert_eq!(s.guac_url, "https://g");
    assert_eq!(last_event(s).1, "tablet");
    assert_eq!(last_event(s).2, "Tablet registered tunnel: wss://t");
}

#[test]
fn an_empty_desktop_address_leaves_the_old_one() {
    let mut all = sessions(&[("DL-1", "acme")]);
    register_tablet(&mut all, "DL-1", &driver(), "a".to_string(), "g".to_string(), NOW);
    let doc: serde_json::Value =
        serde_json::from_str("{\"driver_token\":\"deadbeefcafebabf\",\"ws_url\":7}").unwrap();
    tablet_register(&mut all, "DL-1", &doc, NOW + 1);
    let s = all.get("DL-1").unwrap();
    assert_eq!(s.tablet_ws_url, "");
    assert_eq!(s.guac_url, "g");
    assert_eq!(last_event(s).2, "Tablet registered tunnel: ");
    let list: serde_json::Value = serde_json::from_str("[1,2]").unwrap();
    let r = tablet_register(&mut all, "DL-1", &list, NOW + 1);
    says(&r, Status::Unauthorized, false, "Invalid driver token");
}

#[test]
fn technicians_lead_a_session() {
    let mut all = sessions(&[("DL-1", "acme")]);
    let ack = CustomerReplyRequest {
        driver_token: driver(),
        customer_ack: true,
        customer_message: "done".to_string(),
    };
    customer_reply(&mut all, "DL-1", &ack, NOW);
    let (r, revoke) = update_session(&mut all, "DL-1", &update("Working"), &no_gateway(), NOW + 1);
    says(&r, Status::Success, true, "Updated");
    assert!(revoke.is_none());
    let s = all.get("DL-1").unwrap();
    assert_eq!((s.status.as_str(), s.command.as_str()), ("Working", "Turn key off"));
    assert!(s.requires_ack && s.show_modal && !s.customer_ack);
    assert_eq!(s.customer_message, "");
    assert_eq!(s.priority, "warning");
    assert_eq!(last_event(s).1, "tech_command");
    assert_eq!(last_event(s).2, "Tech: 'Turn key off' | warning");
    assert_eq!(s.last_activity, NOW + 1);
}

#[test]
fn a_change_needs_the_session_and_its_technician_token() {
    let mut all = sessions(&[("DL-1", "acme")]);
    let mut req = update("Working");
    let (r, revoke) = update_session(&mut all, "DL-9", &req, &no_gateway(), NOW);
    says(&r, Status::NotFound, false, "Session not found");
    assert!(revoke.is_none());
    req.tech_token = driver();
    let (r, _) = update_session(&mut all, "DL-1", &req, &no_gateway(), NOW);
    says(&r, Status::Unauthorized, false, "Invalid tech token");
    assert_eq!(all.get("DL-1").unwrap().status, "Awaiting Technician");
}

#[test]
fn ending_the_work_takes_access_away() {
    let gateway = guac_config(
        Some("http://guac:8080/guacamole/".to_string()),
        None,
        Some("pw".to_string()),
    );
    for status in ["Technician Disconnected", "Session Complete"] {
        let mut all = sessions(&[("DL-1", "acme")]);
        let mut who = techs(&[("t", "acme", false)]);
        let call = ServiceRequest { driver_token: driver(), service_type: "fleet".to_string() };
        service_request(&mut all, "DL-1", &call, NOW);
        tech_join(&mut who, &mut all, "DL-1", "t", NOW).unwrap();
        let url = "https://guac/guacamole/#/client/MQBjAHBvc3RncmVzcWw".to_string();
        register_tablet(&mut all, "DL-1", &driver(), "w".to_string(), url, NOW);
        let (_, revoke) = update_session(&mut all, "DL-1", &update(status), &gateway, NOW + 1);
        let revoke = revoke.unwrap();
        assert_eq!(revoke.token_url, "http://guac:8080/guacamole/api/tokens");
        assert_eq!(revoke.token_body, "username=guacadmin&password=pw");
        assert_eq!(
            revoke.delete_url,
            "http://guac:8080/guacamole/api/session/data/postgresql/connections/1"
        );
        let s = all.get("DL-1").unwrap();
        assert!(!s.service_requested && s.service_request_time.is_empty());
        assert!(s.service_type.is_empty() && s.connected_techs.is_empty());
        assert!(s.guac_url.is_empty());
        assert_eq!(s.tablet_ws_url, "w");
        assert_eq!(s.status, status);
    }
}

#[test]
fn other_changes_keep_access() {
    let gateway = guac_config(Some("http://g".to_string()), None, Some("pw".to_string()));
    let mut all = sessions(&[("DL-1", "acme")]);
    let mut who = techs(&[("t", "acme", false)]);
    tech_join(&mut who, &mut all, "DL-1", "t", NOW).unwrap();
    let url = "https://g/#/client/MQBjAHBvc3RncmVzcWw=".to_string();
    register_tablet(&mut all, "DL-1", &driver(), "w".to_string(), url.clone(), NOW);
    let (_, revoke) = update_session(&mut all, "DL-1", &update("Working"), &gateway, NOW);
    assert!(revoke.is_none());
    assert_eq!(all.get("DL-1").unwrap().guac_url, url);
    assert_eq!(all.get("DL-1").unwrap().connected_techs, vec!["acme"]);
}

#[test]
fn two_statuses_end_the_work() {
    assert!(ends_session("Technician Disconnected"));
    assert!(ends_session("Session Complete"));
    assert!(!ends_session("session complete"));
    assert!(!ends_session(""));
}

#[test]
fn a_change_that_ends_the_work_leaves_history() {
    let mut all = sessions(&[("DL-1", "acme")]);
    for (status, expected) in
        [("Working", false), ("Session Complete", true), ("Technician Disconnected", true)]
    {
        let (r, _) = update_session(&mut all, "DL-1", &update(status), &no_gateway(), NOW);
        assert_eq!(leaves_history(&r, status), expected);
        let (r, _) = update_session(&mut all, "DL-9", &update(status), &no_gateway(), NOW);
        assert!(!leaves_history(&r, status));
    }
}

#[test]
fn technicians_join_sessions_of_their_organisation() {
    let mut all = sessions(&[("DL-1", "acme"), ("DL-2", "other")]);
    let mut who = techs(&[("t", "acme", false)]);
    let j = tech_join(&mut who, &mut all, "DL-1", "t", NOW + 7).unwrap();
    assert_eq!((j.session_id.as_str(), j.org_id.as_str()), ("DL-1", "acme"));
    assert_eq!(j.tech_token, technician());
    assert!(j.changed);
    assert_eq!(who.get("t").unwrap().last_seen, NOW + 7);
    let s = all.get("DL-1").unwrap();
    assert_eq!(s.connected_techs, vec!["acme"]);
    assert_eq!(last_event(s).1, "tech_join");
    assert_eq!(last_event(s).2, "Tech joined: acme");
    let e = tech_join(&mut who, &mut all, "DL-2", "t", NOW + 8).unwrap_err();
    says(
        &e,
        Status::Forbidden,
        false,
        "Access denied -- session belongs to a different organization",
    );
    assert_eq!(who.get("t").unwrap().last_seen, NOW + 8);
    let e = tech_join(&mut who, &mut all, "DL-9", "t", NOW + 8).unwrap_err();
    says(&e, Status::NotFound, false, "Session not found");
    let e = tech_join(&mut who, &mut all, "DL-1", "nobody", NOW + 8).unwrap_err();
    says(&e, Status::Unauthorized, false, "Invalid or expired token -- please log in again");
    let e = tech_join(&mut who, &mut all, "DL-1", "t", NOW + 8 + 28800).unwrap_err();
    says(&e, Status::Unauthorized, false, "Invalid or expired token -- please log in again");
}

#[test]
fn joining_twice_is_joining_once() {
    let mut all = sessions(&[("DL-1", "acme")]);
    let mut who = techs(&[("t", "acme", false), ("u", "acme", false)]);
    assert!(tech_join(&mut who, &mut all, "DL-1", "t", NOW + 1).unwrap().changed);
    assert!(!tech_join(&mut who, &mut all, "DL-1", "t", NOW + 2).unwrap().changed);
    assert!(!tech_join(&mut who, &mut all, "DL-1", "u", NOW + 3).unwrap().changed);
    let s = all.get("DL-1").unwrap();
    assert_eq!(s.connected_techs.len(), 1);
    assert_eq!(s.event_log.len(), 1);
    assert_eq!(s.last_activity, NOW + 1);
}

#[test]
fn the_operator_joins_where_it_is_called_or_nobody_is() {
    let mut all = sessions(&[("DL-1", "acme"), ("DL-2", "acme"), ("DL-3", "acme")]);
    let mut who = techs(&[("op", "diesellynk", true)]);
    let call = ServiceRequest {
        driver_token: driver(),
        service_type: "diesellynk_tech".to_string(),
    };
    service_request(&mut all, "DL-2", &call, NOW);
    let own = ServiceRequest { driver_token: driver(), service_type: "own_tech".to_string() };
    service_request(&mut all, "DL-3", &own, NOW);
    assert!(tech_join(&mut who, &mut all, "DL-1", "op", NOW).is_ok());
    assert!(tech_join(&mut who, &mut all, "DL-2", "op", NOW).is_ok());
    assert_eq!(
        tech_join(&mut who, &mut all, "DL-3", "op", NOW).unwrap_err().status,
        Status::Forbidden
    );
}

#[test]
fn technicians_see_the_sessions_of_their_organisation() {
    let all = sessions(&[("DL-1", "acme"), ("DL-2", "other"), ("DL-3", "acme")]);
    let mut who = techs(&[("t", "acme", false)]);
    let list = active_sessions(&mut who, &all, Some("t"), NOW + 1).unwrap();
    let ids: Vec<&str> = list.iter().map(|s| s.session_id.as_str()).collect();
    assert_eq!(ids, vec!["DL-1", "DL-3"]);
    assert_eq!(who.get("t").unwrap().last_seen, NOW + 1);
    for token in [None, Some("nobody")] {
        let e = active_sessions(&mut who, &all, token, NOW + 1).unwrap_err();
        says(&e, Status::Unauthorized, false, "Please log in to view sessions");
    }
}

#[test]
fn the_operator_sees_calls_for_it_and_its_own_sessions() {
    let mut all = sessions(&[("DL-1", "acme"), ("DL-2", "diesellynk"), ("DL-3", "acme")]);
    let call = ServiceRequest {
        driver_token: driver(),
        service_type: "diesellynk_tech".to_string(),
    };
    service_request(&mut all, "DL-3", &call, NOW);
    let mut who = techs(&[("op", "diesellynk", true)]);
    let list = active_sessions(&mut who, &all, Some("op"), NOW).unwrap();
    let ids: Vec<&str> = list.iter().map(|s| s.session_id.as_str()).collect();
    assert_eq!(ids, vec!["DL-2", "DL-3"]);
}

#[test]
fn a_summary_counts_and_copies() {
    let mut s = session("DL-1", "acme");
    s.fault_codes = vec![fault(1), fault(2), fault(3)];
    s.connected_techs = vec!["a".to_string(), "b".to_string()];
    s.truck_info = Some(truck());
    s.adapter_name = "USB".to_string();
    s.service_type = "x".to_string();
    s.service_request_time = "5".to_string();
    s.service_requested = true;
    s.nexiq_connected = true;
    let b = summary_of(&s);
    assert_eq!((b.fault_code_count, b.connected_tech_count), (3, 2));
    assert_eq!((b.session_id.as_str(), b.org_id.as_str()), ("DL-1", "acme"));
    assert_eq!(b.status, "Awaiting Technician");
    assert_eq!((b.service_type.as_str(), b.service_request_time.as_str()), ("x", "5"));
    assert_eq!(b.adapter_name, "USB");
    assert!(b.service_requested && b.nexiq_connected);
    assert_eq!(b.truck_info.unwrap().vin, "1FUJ");
}

#[test]
fn a_tablet_is_led_to_the_latest_session() {
    let mut all = sessions(&[("DL-1", "acme"), ("DL-2", "acme"), ("DL-3", "other")]);
    push_event(all.get_mut("DL-1").unwrap(), "note", String::new(), NOW + 50);
    push_event(all.get_mut("DL-3").unwrap(), "note", String::new(), NOW + 90);
    let t = tablet_info(&all, "acme").unwrap();
    assert_eq!((t.session_id.as_str(), t.org_id.as_str()), ("DL-1", "acme"));
    assert_eq!(t.driver_token, driver());
    push_event(all.get_mut("DL-2").unwrap(), "note", String::new(), NOW + 50);
    assert_eq!(tablet_info(&all, "acme").unwrap().session_id, "DL-2");
    let e = tablet_info(&all, "nobody").unwrap_err();
    says(&e, Status::NotFound, false, "No active session for this org");
}

#[test]
fn idle_sessions_expire() {
    let mut all = sessions(&[("DL-1", "acme"), ("DL-2", "acme"), ("DL-3", "acme")]);
    push_event(all.get_mut("DL-2").unwrap(), "note", String::new(), NOW + 1);
    assert!(expire_sessions(&mut all, NOW + 43200).is_empty());
    assert_eq!(all.len(), 3);
    assert_eq!(expire_sessions(&mut all, NOW + 43201), vec!["DL-1", "DL-3"]);
    assert_eq!(all.len(), 1);
    assert!(all.contains_key("DL-2"));
    assert_eq!(expire_sessions(&mut all, NOW + 43202), vec!["DL-2"]);
    assert_eq!(all.len(), 0);
}

#[test]
fn a_table_keeps_one_value_for_each_key() {
    let mut t = sessions(&[("a", "1"), ("b", "2"), ("a", "3")]);
    assert_eq!(t.len(), 2);
    assert_eq!(t.get("a").unwrap().org_id, "3");
    assert_eq!(t.key_at(0), "a");
    assert_eq!(t.value_at(1).org_id, "2");
    assert!(t.get("c").is_none() && t.get_mut("c").is_none());
    t.get_mut("b").unwrap().org_id = "4".to_string();
    assert_eq!(t.get("b").unwrap().org_id, "4");
    assert!(t.remove("a"));
    assert!(!t.remove("a"));
    assert!(!t.contains_key("a"));
    assert_eq!(t.len(), 1);
}
