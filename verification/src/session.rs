//! Sessions: how they begin, what is logged, and what drivers, adapters and
//! tablets change in them.

use crate::clock::token_at;
#[allow(unused_imports)]
use crate::clock::token_text;
use crate::json::member_or_empty;
#[allow(unused_imports)]
use crate::json::string_members;
#[allow(unused_imports)]
use crate::letter_case::{ascii_uppercase, uppercase};
use crate::model::{
    CustomerReplyRequest, EventEntry, FaultCode, LiveData, ManualTruckInfoRequest,
    NexiqStatusRequest, ServiceRequest, SessionState, TruckInfo,
};
#[allow(unused_imports)]
use crate::model::{event_views, fault_views, truck_view, EventView, SessionView, TruckView};
#[allow(unused_imports)]
use crate::numerals::decimal;
use crate::numerals::to_decimal;
use crate::reply::{accept, refuse, Reply, Status};
#[allow(unused_imports)]
use crate::reply::{done, refused, ReplyView};
use crate::table::Table;
#[allow(unused_imports)]
use crate::text::{texts, trimmed};
use crate::text::{same, trim};
use vstd::prelude::*;
use vstd::string::*;
#[allow(unused_imports)]
use vstd::utf8::is_ascii_chars;

verus! {

/// How many events a session's log holds at most.
pub const LOG_LIMIT: usize = 200;

/// A session as it begins.
pub open spec fn fresh_session(
    session_id: Seq<char>,
    org_id: Seq<char>,
    driver_token: Seq<char>,
    tech_token: Seq<char>,
    now: u64,
) -> SessionView {
    SessionView {
        session_id,
        org_id,
        driver_token,
        tech_token,
        status: "Awaiting Technician"@,
        command: "Session created -- standby for tech connection"@,
        requires_ack: false,
        customer_ack: false,
        customer_message: seq![],
        priority: "info"@,
        show_modal: false,
        nexiq_connected: false,
        adapter_name: seq![],
        fault_codes: seq![],
        truck_info: None,
        live_data: None,
        service_requested: false,
        service_request_time: seq![],
        service_type: seq![],
        tablet_ws_url: seq![],
        guac_url: seq![],
        event_log: seq![],
        connected_techs: seq![],
        last_activity: now,
    }
}

/// Begins a session. Its two tokens are made at the given nanoseconds.
pub fn default_session(
    session_id: String,
    org_id: String,
    driver_nanos: u128,
    tech_nanos: u128,
    now: u64,
) -> (r: SessionState)
    ensures
        r@ == fresh_session(
            session_id@,
            org_id@,
            token_text(driver_nanos),
            token_text(tech_nanos),
            now,
        ),
{
    let fault_codes: Vec<FaultCode> = Vec::new();
    let event_log: Vec<EventEntry> = Vec::new();
    let connected_techs: Vec<String> = Vec::new();
    assert(fault_views(fault_codes@) =~= seq![]);
    assert(event_views(event_log@) =~= seq![]);
    assert(texts(connected_techs@) =~= seq![]);
    SessionState {
        session_id,
        org_id,
        driver_token: token_at(driver_nanos),
        tech_token: token_at(tech_nanos),
        status: "Awaiting Technician".to_owned(),
        command: "Session created -- standby for tech connection".to_owned(),
        requires_ack: false,
        customer_ack: false,
        customer_message: String::new(),
        priority: "info".to_owned(),
        show_modal: false,
        nexiq_connected: false,
        adapter_name: String::new(),
        fault_codes,
        truck_info: None,
        live_data: None,
        service_requested: false,
        service_request_time: String::new(),
        service_type: String::new(),
        tablet_ws_url: String::new(),
        guac_url: String::new(),
        event_log,
        connected_techs,
        last_activity: now,
    }
}

/// A log with one more event. A log that grows past its limit loses its oldest
/// event.
pub open spec fn log_after(log: Seq<EventView>, e: EventView) -> Seq<EventView> {
    let more = log.push(e);
    if more.len() > LOG_LIMIT {
        more.drop_first()
    } else {
        more
    }
}

/// A session after an event was logged.
pub open spec fn logged(
    s: SessionView,
    kind: Seq<char>,
    message: Seq<char>,
    now: u64,
) -> SessionView {
    SessionView {
        event_log: log_after(
            s.event_log,
            EventView { timestamp: decimal(now as nat), kind, message },
        ),
        last_activity: now,
        ..s
    }
}

/// Logs an event.
pub fn push_event(session: &mut SessionState, kind: &str, message: String, now: u64)
    ensures
        final(session)@ == logged(old(session)@, kind@, message@, now),
{
    let entry = EventEntry { timestamp: to_decimal(now), kind: kind.to_owned(), message };
    let ghost e = entry@;
    session.event_log.push(entry);
    assert(event_views(session.event_log@) =~= old(session)@.event_log.push(e));
    if session.event_log.len() > LOG_LIMIT {
        let ghost long = session.event_log@;
        session.event_log.remove(0);
        assert(event_views(session.event_log@) =~= event_views(long).drop_first());
    }
    session.last_activity = now;
}

/// A log within its limit stays within it.
pub proof fn log_stays_within_limit(s: SessionView, kind: Seq<char>, message: Seq<char>, now: u64)
    requires
        s.event_log.len() <= LOG_LIMIT,
    ensures
        logged(s, kind, message, now).event_log.len() <= LOG_LIMIT,
{
}

/// The newest event is the last of the log, and the log keeps its newest
/// events in order.
pub proof fn log_keeps_the_newest(s: SessionView, kind: Seq<char>, message: Seq<char>, now: u64)
    ensures
        ({
            let after = logged(s, kind, message, now).event_log;
            let kept_before = after.drop_last();
            &&& after.len() > 0
            &&& after.last() == EventView { timestamp: decimal(now as nat), kind, message }
            &&& kept_before == s.event_log.skip(s.event_log.len() - kept_before.len())
        }),
{
    let after = logged(s, kind, message, now).event_log;
    let kept_before = after.drop_last();
    assert(kept_before =~= s.event_log.skip(s.event_log.len() - kept_before.len()));
}

/// Why a driver's request is refused, if it is: there is no such session, or
/// the token is not the session's driver token.
pub open spec fn driver_refusal(
    m: Map<Seq<char>, SessionView>,
    id: Seq<char>,
    token: Seq<char>,
) -> Option<ReplyView> {
    if !m.contains_key(id) {
        Some(refused(Status::NotFound, "Session not found"@))
    } else if m[id].driver_token != token {
        Some(refused(Status::Unauthorized, "Invalid driver token"@))
    } else {
        None
    }
}

/// The session that a driver's request may change, or the refusal.
fn admit_driver<'a>(
    sessions: &'a mut Table<SessionState>,
    id: &str,
    token: &str,
) -> (r: Result<&'a mut SessionState, Reply>)
    requires
        old(sessions).wf(),
    ensures
        final(sessions).wf(),
        match r {
            Ok(s) => {
                &&& driver_refusal(old(sessions)@, id@, token@) is None
                &&& (*s)@ == old(sessions)@[id@]
                &&& final(sessions)@ == old(sessions)@.insert(id@, (*final(s))@)
            },
            Err(e) => {
                &&& driver_refusal(old(sessions)@, id@, token@) == Some(e@)
                &&& final(sessions)@ == old(sessions)@
            },
        },
{
    match sessions.get_mut(id) {
        Some(s) => {
            if same(s.driver_token.as_str(), token) {
                Ok(s)
            } else {
                Err(refuse(Status::Unauthorized, "Invalid driver token"))
            }
        },
        None => Err(refuse(Status::NotFound, "Session not found")),
    }
}

/// A truth value in words.
pub open spec fn bool_text(b: bool) -> Seq<char> {
    if b {
        "true"@
    } else {
        "false"@
    }
}

fn bool_str(b: bool) -> (r: &'static str)
    ensures
        r@ == bool_text(b),
{
    if b {
        "true"
    } else {
        "false"
    }
}

/// A session after the driver has answered. An acknowledgement takes back the
/// demand for one.
pub open spec fn after_customer_reply(
    s: SessionView,
    req: CustomerReplyRequest,
    now: u64,
) -> SessionView {
    let answered = SessionView {
        customer_ack: req.customer_ack,
        customer_message: req.customer_message@,
        requires_ack: s.requires_ack && !req.customer_ack,
        show_modal: s.show_modal && !req.customer_ack,
        ..s
    };
    logged(
        answered,
        "driver_reply"@,
        "Driver: ack="@ + bool_text(req.customer_ack) + " | '"@ + req.customer_message@ + "'"@,
        now,
    )
}

/// Records the driver's answer.
pub fn customer_reply(
    sessions: &mut Table<SessionState>,
    id: &str,
    req: &CustomerReplyRequest,
    now: u64,
) -> (r: Reply)
    requires
        old(sessions).wf(),
    ensures
        final(sessions).wf(),
        match driver_refusal(old(sessions)@, id@, req.driver_token@) {
            Some(e) => r@ == e && final(sessions)@ == old(sessions)@,
            None => r@ == done("Reply received"@) && final(sessions)@ == old(sessions)@.insert(
                id@,
                after_customer_reply(old(sessions)@[id@], *req, now),
            ),
        },
{
    let session = match admit_driver(sessions, id, req.driver_token.as_str()) {
        Ok(s) => s,
        Err(e) => return e,
    };
    session.customer_ack = req.customer_ack;
    session.customer_message = req.customer_message.clone();
    if req.customer_ack {
        session.requires_ack = false;
        session.show_modal = false;
    }
    let mut message = "Driver: ack=".to_owned();
    message.append(bool_str(session.customer_ack));
    message.append(" | '");
    message.append(session.customer_message.as_str());
    message.append("'");
    push_event(session, "driver_reply", message, now);
    accept("Reply received")
}

/// A session after the driver has called for service.
pub open spec fn after_service_request(
    s: SessionView,
    req: ServiceRequest,
    now: u64,
) -> SessionView {
    let called = SessionView {
        service_requested: true,
        service_request_time: decimal(now as nat),
        service_type: req.service_type@,
        status: "Service Requested"@,
        command: "Connecting you to a technician -- please stand by"@,
        priority: "action"@,
        ..s
    };
    logged(
        called,
        "service_request"@,
        "Driver requested service -- type: "@ + req.service_type@,
        now,
    )
}

/// Records the driver's call for service.
pub fn service_request(
    sessions: &mut Table<SessionState>,
    id: &str,
    req: &ServiceRequest,
    now: u64,
) -> (r: Reply)
    requires
        old(sessions).wf(),
    ensures
        final(sessions).wf(),
        match driver_refusal(old(sessions)@, id@, req.driver_token@) {
            Some(e) => r@ == e && final(sessions)@ == old(sessions)@,
            None => r@ == done("Service request sent"@) && final(sessions)@ == old(
                sessions,
            )@.insert(id@, after_service_request(old(sessions)@[id@], *req, now)),
        },
{
    let session = match admit_driver(sessions, id, req.driver_token.as_str()) {
        Ok(s) => s,
        Err(e) => return e,
    };
    session.service_requested = true;
    session.service_request_time = to_decimal(now);
    session.service_type = req.service_type.clone();
    session.status = "Service Requested".to_owned();
    session.command = "Connecting you to a technician -- please stand by".to_owned();
    session.priority = "action".to_owned();
    let mut message = "Driver requested service -- type: ".to_owned();
    message.append(session.service_type.as_str());
    push_event(session, "service_request", message, now);
    accept("Service request sent")
}

/// How a truck that the adapter identified is logged.
pub open spec fn truck_line(t: TruckView) -> Seq<char> {
    "VIN: "@ + t.vin + " | "@ + decimal(t.year as nat) + " "@ + t.make + " "@ + t.model + " "@
        + t.engine
}

fn truck_line_of(t: &TruckInfo) -> (r: String)
    ensures
        r@ == truck_line(t@),
{
    let mut line = "VIN: ".to_owned();
    line.append(t.vin.as_str());
    line.append(" | ");
    line.append(to_decimal(t.year as u64).as_str());
    line.append(" ");
    line.append(t.make.as_str());
    line.append(" ");
    line.append(t.model.as_str());
    line.append(" ");
    line.append(t.engine.as_str());
    line
}

/// A session with what an adapter reported. Of truck, faults and readings, what
/// the report leaves out stays as it was.
pub open spec fn with_report(s: SessionView, req: NexiqStatusRequest) -> SessionView {
    SessionView {
        nexiq_connected: req.connected,
        adapter_name: req.adapter_name@,
        truck_info: match req.truck_info {
            Some(t) => Some(t@),
            None => s.truck_info,
        },
        fault_codes: match req.fault_codes {
            Some(f) => fault_views(f@),
            None => s.fault_codes,
        },
        live_data: match req.live_data {
            Some(l) => Some(l),
            None => s.live_data,
        },
        ..s
    }
}

/// A session after the adapter's coming or going was logged.
pub open spec fn connection_logged(s: SessionView, was: bool, now: u64) -> SessionView {
    if s.nexiq_connected && !was {
        let connected = logged(s, "nexiq"@, "Nexiq connected: "@ + s.adapter_name, now);
        match s.truck_info {
            Some(t) => logged(connected, "truck_id"@, truck_line(t), now),
            None => connected,
        }
    } else if !s.nexiq_connected && was {
        logged(s, "nexiq"@, "Nexiq disconnected"@, now)
    } else {
        s
    }
}

/// A session after its faults were logged, if it has any.
pub open spec fn faults_logged(s: SessionView, now: u64) -> SessionView {
    if s.fault_codes.len() > 0 {
        logged(
            s,
            "fault_codes"@,
            decimal(s.fault_codes.len()) + " fault code(s) detected"@,
            now,
        )
    } else {
        s
    }
}

/// A session after a report of the adapter.
pub open spec fn after_nexiq_status(
    s: SessionView,
    req: NexiqStatusRequest,
    now: u64,
) -> SessionView {
    faults_logged(connection_logged(with_report(s, req), s.nexiq_connected, now), now)
}

fn log_connection(session: &mut SessionState, was: bool, now: u64)
    ensures
        final(session)@ == connection_logged(old(session)@, was, now),
{
    if session.nexiq_connected && !was {
        let mut message = "Nexiq connected: ".to_owned();
        message.append(session.adapter_name.as_str());
        push_event(session, "nexiq", message, now);
        let line: Option<String> = match &session.truck_info {
            Some(t) => Some(truck_line_of(t)),
            None => None,
        };
        match line {
            Some(l) => push_event(session, "truck_id", l, now),
            None => {},
        }
    } else if !session.nexiq_connected && was {
        push_event(session, "nexiq", "Nexiq disconnected".to_owned(), now);
    }
}

fn log_faults(session: &mut SessionState, now: u64)
    ensures
        final(session)@ == faults_logged(old(session)@, now),
{
    assert(session@.fault_codes.len() == session.fault_codes@.len());
    if session.fault_codes.len() > 0 {
        let mut message = to_decimal(session.fault_codes.len() as u64);
        message.append(" fault code(s) detected");
        push_event(session, "fault_codes", message, now);
    }
}

/// Records a report of the adapter.
pub fn nexiq_status(
    sessions: &mut Table<SessionState>,
    id: &str,
    req: NexiqStatusRequest,
    now: u64,
) -> (r: Reply)
    requires
        old(sessions).wf(),
    ensures
        final(sessions).wf(),
        match driver_refusal(old(sessions)@, id@, req.driver_token@) {
            Some(e) => r@ == e && final(sessions)@ == old(sessions)@,
            None => r@ == done("Nexiq status updated"@) && final(sessions)@ == old(
                sessions,
            )@.insert(id@, after_nexiq_status(old(sessions)@[id@], req, now)),
        },
{
    let session = match admit_driver(sessions, id, req.driver_token.as_str()) {
        Ok(s) => s,
        Err(e) => return e,
    };
    let ghost before = session@;
    let was = session.nexiq_connected;
    session.nexiq_connected = req.connected;
    session.adapter_name = req.adapter_name;
    match req.truck_info {
        Some(t) => {
            session.truck_info = Some(t);
        },
        None => {},
    }
    match req.fault_codes {
        Some(c) => {
            session.fault_codes = c;
        },
        None => {},
    }
    match req.live_data {
        Some(l) => {
            session.live_data = Some(l);
        },
        None => {},
    }
    assert(session@ == with_report(before, req));
    log_connection(session, was, now);
    log_faults(session, now);
    accept("Nexiq status updated")
}

/// A session after the driver has typed in a truck record, with the
/// identification number in the spelling to keep. The log shows the entry as
/// typed.
pub open spec fn after_truck_entry(
    s: SessionView,
    req: ManualTruckInfoRequest,
    vin: Seq<char>,
    now: u64,
) -> SessionView {
    let entered = SessionView {
        truck_info: Some(
            TruckView {
                vin,
                make: trimmed(req.make@),
                model: trimmed(req.model@),
                year: req.year,
                engine: trimmed(req.engine@),
                odometer: req.odometer,
            },
        ),
        ..s
    };
    logged(
        entered,
        "truck_id"@,
        "Manual entry: "@ + decimal(req.year as nat) + " "@ + req.make@ + " "@ + req.model@ + " "@
            + req.engine@ + " (VIN: "@ + req.vin@ + ")"@,
        now,
    )
}

/// Records a truck record that the driver typed in, with the identification
/// number in the spelling to keep.
pub fn enter_truck(
    sessions: &mut Table<SessionState>,
    id: &str,
    req: &ManualTruckInfoRequest,
    vin: String,
    now: u64,
) -> (r: Reply)
    requires
        old(sessions).wf(),
    ensures
        final(sessions).wf(),
        match driver_refusal(old(sessions)@, id@, req.driver_token@) {
            Some(e) => r@ == e && final(sessions)@ == old(sessions)@,
            None => r@ == done("Truck info saved"@) && final(sessions)@ == old(sessions)@.insert(
                id@,
                after_truck_entry(old(sessions)@[id@], *req, vin@, now),
            ),
        },
{
    let session = match admit_driver(sessions, id, req.driver_token.as_str()) {
        Ok(s) => s,
        Err(e) => return e,
    };
    session.truck_info = Some(
        TruckInfo {
            vin,
            make: trim(req.make.as_str()),
            model: trim(req.model.as_str()),
            year: req.year,
            engine: trim(req.engine.as_str()),
            odometer: req.odometer,
        },
    );
    let mut message = "Manual entry: ".to_owned();
    message.append(to_decimal(req.year as u64).as_str());
    message.append(" ");
    message.append(req.make.as_str());
    message.append(" ");
    message.append(req.model.as_str());
    message.append(" ");
    message.append(req.engine.as_str());
    message.append(" (VIN: ");
    message.append(req.vin.as_str());
    message.append(")");
    push_event(session, "truck_id", message, now);
    accept("Truck info saved")
}

/// Records a truck record that the driver typed in. The identification number
/// is kept trimmed and in capitals.
pub fn manual_truck_info(
    sessions: &mut Table<SessionState>,
    id: &str,
    req: &ManualTruckInfoRequest,
    now: u64,
) -> (r: Reply)
    requires
        old(sessions).wf(),
    ensures
        final(sessions).wf(),
        match driver_refusal(old(sessions)@, id@, req.driver_token@) {
            Some(e) => r@ == e && final(sessions)@ == old(sessions)@,
            None => r@ == done("Truck info saved"@) && final(sessions)@ == old(sessions)@.insert(
                id@,
                after_truck_entry(old(sessions)@[id@], *req, uppercase(trimmed(req.vin@)), now),
            ),
        },
        is_ascii_chars(trimmed(req.vin@)) ==> uppercase(trimmed(req.vin@)) == ascii_uppercase(
            trimmed(req.vin@),
        ),
{
    let vin = trim(req.vin.as_str()).as_str().to_uppercase();
    enter_truck(sessions, id, req, vin, now)
}

/// A session after a tablet has registered its tunnel. An empty desktop address
/// leaves the old one.
pub open spec fn after_tablet_register(
    s: SessionView,
    ws_url: Seq<char>,
    guac_url: Seq<char>,
    now: u64,
) -> SessionView {
    let registered = SessionView {
        tablet_ws_url: ws_url,
        guac_url: if guac_url.len() > 0 {
            guac_url
        } else {
            s.guac_url
        },
        ..s
    };
    logged(registered, "tablet"@, "Tablet registered tunnel: "@ + ws_url, now)
}

/// Records the addresses that a tablet has registered.
pub fn register_tablet(
    sessions: &mut Table<SessionState>,
    id: &str,
    driver_token: &str,
    ws_url: String,
    guac_url: String,
    now: u64,
) -> (r: Reply)
    requires
        old(sessions).wf(),
    ensures
        final(sessions).wf(),
        match driver_refusal(old(sessions)@, id@, driver_token@) {
            Some(e) => r@ == e && final(sessions)@ == old(sessions)@,
            None => r@ == done("Tablet registered"@) && final(sessions)@ == old(sessions)@.insert(
                id@,
                after_tablet_register(old(sessions)@[id@], ws_url@, guac_url@, now),
            ),
        },
{
    let session = match admit_driver(sessions, id, driver_token) {
        Ok(s) => s,
        Err(e) => return e,
    };
    let mut message = "Tablet registered tunnel: ".to_owned();
    message.append(ws_url.as_str());
    session.tablet_ws_url = ws_url;
    if !guac_url.as_str().is_empty() {
        session.guac_url = guac_url;
    }
    push_event(session, "tablet", message, now);
    accept("Tablet registered")
}

/// The string under `key` in the members of a document, or the empty string.
pub open spec fn member_text(m: Map<Seq<char>, Seq<char>>, key: Seq<char>) -> Seq<char> {
    if m.contains_key(key) {
        m[key]
    } else {
        seq![]
    }
}

/// Records the addresses in a tablet's registration document. A member that is
/// missing, or is no string, counts as empty.
pub fn tablet_register(
    sessions: &mut Table<SessionState>,
    id: &str,
    payload: &serde_json::Value,
    now: u64,
) -> (r: Reply)
    requires
        old(sessions).wf(),
    ensures
        final(sessions).wf(),
        ({
            let m = string_members(*payload);
            match driver_refusal(old(sessions)@, id@, member_text(m, "driver_token"@)) {
                Some(e) => r@ == e && final(sessions)@ == old(sessions)@,
                None => r@ == done("Tablet registered"@) && final(sessions)@ == old(
                    sessions,
                )@.insert(
                    id@,
                    after_tablet_register(
                        old(sessions)@[id@],
                        member_text(m, "ws_url"@),
                        member_text(m, "guac_url"@),
                        now,
                    ),
                ),
            }
        }),
{
    let driver_token = member_or_empty(payload, "driver_token");
    let ws_url = member_or_empty(payload, "ws_url");
    let guac_url = member_or_empty(payload, "guac_url");
    register_tablet(sessions, id, driver_token.as_str(), ws_url, guac_url, now)
}

/// Whether two states are of one session: id, organisation and tokens agree.
pub open spec fn same_session(a: SessionView, b: SessionView) -> bool {
    &&& a.session_id == b.session_id
    &&& a.org_id == b.org_id
    &&& a.driver_token == b.driver_token
    &&& a.tech_token == b.tech_token
}

/// Whether a log is within its limit.
pub open spec fn log_fits(s: SessionView) -> bool {
    s.event_log.len() <= LOG_LIMIT
}

/// A session begins with a log within its limit.
pub proof fn fresh_log_fits(
    session_id: Seq<char>,
    org_id: Seq<char>,
    driver_token: Seq<char>,
    tech_token: Seq<char>,
    now: u64,
)
    ensures
        log_fits(fresh_session(session_id, org_id, driver_token, tech_token, now)),
{
}

/// The driver's answer leaves the session the same, keeps its log within the
/// limit and counts as activity.
pub proof fn reply_keeps_the_session(s: SessionView, req: CustomerReplyRequest, now: u64)
    ensures
        same_session(s, after_customer_reply(s, req, now)),
        log_fits(s) ==> log_fits(after_customer_reply(s, req, now)),
        after_customer_reply(s, req, now).last_activity == now,
{
}

/// The driver's call for service leaves the session the same, keeps its log
/// within the limit and counts as activity.
pub proof fn call_keeps_the_session(s: SessionView, req: ServiceRequest, now: u64)
    ensures
        same_session(s, after_service_request(s, req, now)),
        log_fits(s) ==> log_fits(after_service_request(s, req, now)),
        after_service_request(s, req, now).last_activity == now,
{
}

/// The adapter's report leaves the session the same and keeps its log within
/// the limit. It counts as activity exactly where it is logged: where the
/// adapter comes or goes, or the truck has faults.
pub proof fn report_keeps_the_session(s: SessionView, req: NexiqStatusRequest, now: u64)
    ensures
        same_session(s, after_nexiq_status(s, req, now)),
        log_fits(s) ==> log_fits(after_nexiq_status(s, req, now)),
        after_nexiq_status(s, req, now).last_activity == if req.connected != s.nexiq_connected
            || with_report(s, req).fault_codes.len() > 0 {
            now
        } else {
            s.last_activity
        },
{
    let reported = with_report(s, req);
    let noted = connection_logged(reported, s.nexiq_connected, now);
    assert(noted.fault_codes == reported.fault_codes);
}

/// A truck record that was typed in leaves the session the same, keeps its log
/// within the limit and counts as activity.
pub proof fn entry_keeps_the_session(
    s: SessionView,
    req: ManualTruckInfoRequest,
    vin: Seq<char>,
    now: u64,
)
    ensures
        same_session(s, after_truck_entry(s, req, vin, now)),
        log_fits(s) ==> log_fits(after_truck_entry(s, req, vin, now)),
        after_truck_entry(s, req, vin, now).last_activity == now,
{
}

/// A tablet's registration leaves the session the same, keeps its log within
/// the limit and counts as activity.
pub proof fn registration_keeps_the_session(
    s: SessionView,
    ws_url: Seq<char>,
    guac_url: Seq<char>,
    now: u64,
)
    ensures
        same_session(s, after_tablet_register(s, ws_url, guac_url, now)),
        log_fits(s) ==> log_fits(after_tablet_register(s, ws_url, guac_url, now)),
        after_tablet_register(s, ws_url, guac_url, now).last_activity == now,
{
}

/// A driver who acknowledges is no longer asked to.
pub proof fn acknowledgement_settles_the_demand(
    s: SessionView,
    req: CustomerReplyRequest,
    now: u64,
)
    requires
        req.customer_ack,
    ensures
        after_customer_reply(s, req, now).customer_ack,
        !after_customer_reply(s, req, now).requires_ack,
        !after_customer_reply(s, req, now).show_modal,
{
}

/// A driver's answer that acknowledges nothing leaves the demand standing.
pub proof fn other_answers_leave_the_demand(s: SessionView, req: CustomerReplyRequest, now: u64)
    requires
        !req.customer_ack,
    ensures
        after_customer_reply(s, req, now).requires_ack == s.requires_ack,
        after_customer_reply(s, req, now).show_modal == s.show_modal,
{
}

} // verus!
