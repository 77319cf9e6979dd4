//! What each request leaves behind in a session.

#[allow(unused_imports)]
use crate::model::{
    CustomerReplyRequest, EventView, FaultView, ManualTruckInfoRequest, NexiqStatusRequest,
    ServiceRequest, SessionView, TechView, TruckView, UpdateRequest,
};
#[allow(unused_imports)]
use crate::numerals::decimal;
#[allow(unused_imports)]
use crate::reply::{ReplyView, Status};
#[allow(unused_imports)]
use crate::session::{
    after_customer_reply, after_nexiq_status, after_service_request, after_tablet_register,
    after_truck_entry, driver_refusal, fresh_session, log_after, member_text,
};
#[allow(unused_imports)]
use crate::technician::{after_join, after_update, ends, join_refusal, joinable, update_refusal};
#[allow(unused_imports)]
use crate::text::trimmed;
use vstd::prelude::*;
use vstd::string::*;

verus! {

/// Id, organisation and tokens are the same.
pub open spec fn identity_kept(a: SessionView, b: SessionView) -> bool {
    &&& b.session_id == a.session_id
    &&& b.org_id == a.org_id
    &&& b.driver_token == a.driver_token
    &&& b.tech_token == a.tech_token
}

/// What the driver is told and has answered is the same.
pub open spec fn talk_kept(a: SessionView, b: SessionView) -> bool {
    &&& b.status == a.status
    &&& b.command == a.command
    &&& b.requires_ack == a.requires_ack
    &&& b.customer_ack == a.customer_ack
    &&& b.customer_message == a.customer_message
    &&& b.priority == a.priority
    &&& b.show_modal == a.show_modal
}

/// What is known of adapter and truck is the same.
pub open spec fn truck_kept(a: SessionView, b: SessionView) -> bool {
    &&& b.nexiq_connected == a.nexiq_connected
    &&& b.adapter_name == a.adapter_name
    &&& b.fault_codes == a.fault_codes
    &&& b.truck_info == a.truck_info
    &&& b.live_data == a.live_data
}

/// The call for service is the same.
pub open spec fn call_kept(a: SessionView, b: SessionView) -> bool {
    &&& b.service_requested == a.service_requested
    &&& b.service_request_time == a.service_request_time
    &&& b.service_type == a.service_type
}

/// The addresses and those who have joined are the same.
pub open spec fn links_kept(a: SessionView, b: SessionView) -> bool {
    &&& b.tablet_ws_url == a.tablet_ws_url
    &&& b.guac_url == a.guac_url
    &&& b.connected_techs == a.connected_techs
}

/// A line of the log: what kind of event, and what happened.
pub struct Line {
    /// What kind of event it is.
    pub kind: Seq<char>,
    /// What happened.
    pub message: Seq<char>,
}

/// The log of `b` is that of `a` with the given lines behind it, written at
/// `now`. A log of two hundred or more loses an old event for each new one. A log
/// with a new line makes `now` the time of the last activity.
pub open spec fn lines_more(a: SessionView, b: SessionView, lines: Seq<Line>, now: u64) -> bool {
    let whole = a.event_log.len() + lines.len();
    let n = b.event_log.len();
    &&& n == if whole <= 200 {
        whole
    } else if a.event_log.len() <= 200 {
        200
    } else {
        a.event_log.len()
    }
    &&& forall|i: int|
        0 <= i < n ==> {
            let at = i + whole - n;
            if at < a.event_log.len() {
                #[trigger] b.event_log[i] == a.event_log[at]
            } else {
                let line = lines[at - a.event_log.len()];
                &&& b.event_log[i].timestamp == decimal(now as nat)
                &&& b.event_log[i].kind == line.kind
                &&& b.event_log[i].message == line.message
            }
        }
    &&& b.last_activity == if lines.len() > 0 {
        now
    } else {
        a.last_activity
    }
}

/// A session begins under the id, for the organisation and with the tokens that
/// it is given, with nothing asked, answered, known, joined or logged yet.
pub proof fn sessions_begin_empty(
    id: Seq<char>,
    org: Seq<char>,
    driver: Seq<char>,
    tech: Seq<char>,
    now: u64,
)
    ensures
        ({
            let s = fresh_session(id, org, driver, tech, now);
            &&& s.session_id == id && s.org_id == org
            &&& s.driver_token == driver && s.tech_token == tech
            &&& s.status == "Awaiting Technician"@
            &&& s.command == "Session created -- standby for tech connection"@
            &&& s.priority == "info"@
            &&& !s.requires_ack && !s.customer_ack && !s.show_modal
            &&& !s.nexiq_connected && !s.service_requested
            &&& s.customer_message.len() == 0 && s.adapter_name.len() == 0
            &&& s.fault_codes.len() == 0 && s.truck_info is None && s.live_data is None
            &&& s.service_request_time.len() == 0 && s.service_type.len() == 0
            &&& s.tablet_ws_url.len() == 0 && s.guac_url.len() == 0
            &&& s.event_log.len() == 0 && s.connected_techs.len() == 0
            &&& s.last_activity == now
        }),
{
}

/// After a technician's change the session holds the status, command, urgency,
/// demand and display that were asked for, whatever they are; the driver has not
/// answered yet; and what the change has nothing to do with stays.
pub proof fn update_sets_what_was_asked(s: SessionView, req: UpdateRequest, now: u64)
    ensures
        ({
            let t = after_update(s, req, now);
            &&& t.status == req.status@
            &&& t.command == req.command@
            &&& t.priority == req.priority@
            &&& t.requires_ack == req.requires_ack
            &&& t.show_modal == req.show_modal
            &&& !t.customer_ack && t.customer_message.len() == 0
            &&& identity_kept(s, t) && truck_kept(s, t)
            &&& t.tablet_ws_url == s.tablet_ws_url
            &&& lines_more(
                s,
                t,
                seq![
                    Line {
                        kind: "tech_command"@,
                        message: "Tech: '"@ + req.command@ + "' | "@ + req.priority@,
                    },
                ],
                now,
            )
        }),
{
}

/// A change ends the work exactly where its status says that the technician has
/// gone or the session is complete: then the call for service, those who joined
/// and the desktop address are gone; otherwise all of them stay.
pub proof fn update_ends_by_its_status(s: SessionView, req: UpdateRequest, now: u64)
    ensures
        ends(req.status@) <==> req.status@ == "Technician Disconnected"@ || req.status@
            == "Session Complete"@,
        ({
            let t = after_update(s, req, now);
            if req.status@ == "Technician Disconnected"@ || req.status@ == "Session Complete"@ {
                &&& !t.service_requested
                &&& t.service_request_time.len() == 0 && t.service_type.len() == 0
                &&& t.connected_techs.len() == 0 && t.guac_url.len() == 0
            } else {
                call_kept(s, t) && links_kept(s, t)
            }
        }),
{
}

/// Of two changes in a row, the session holds what the second asked for, as if
/// the first had not been.
pub proof fn last_update_counts(
    s: SessionView,
    first: UpdateRequest,
    second: UpdateRequest,
    t1: u64,
    t2: u64,
)
    ensures
        talk_kept(
            after_update(s, second, t2),
            after_update(after_update(s, first, t1), second, t2),
        ),
{
}

/// After the driver's answer the session holds the answer; an acknowledgement,
/// and nothing else, takes the demand and its display back; the rest stays.
pub proof fn reply_sets_the_answer(s: SessionView, req: CustomerReplyRequest, now: u64)
    ensures
        ({
            let t = after_customer_reply(s, req, now);
            &&& t.customer_ack == req.customer_ack
            &&& t.customer_message == req.customer_message@
            &&& t.requires_ack <==> s.requires_ack && !req.customer_ack
            &&& t.show_modal <==> s.show_modal && !req.customer_ack
            &&& t.status == s.status && t.command == s.command && t.priority == s.priority
            &&& identity_kept(s, t) && truck_kept(s, t) && call_kept(s, t) && links_kept(s, t)
            &&& lines_more(
                s,
                t,
                seq![
                    Line {
                        kind: "driver_reply"@,
                        message: (if req.customer_ack {
                            "Driver: ack="@ + "true"@
                        } else {
                            "Driver: ack="@ + "false"@
                        }) + " | '"@ + req.customer_message@ + "'"@,
                    },
                ],
                now,
            )
        }),
{
}

/// After a call for service the session holds the kind of service that was asked
/// for and the time of the call, and tells the driver to stand by; the rest
/// stays.
pub proof fn call_sets_the_service(s: SessionView, req: ServiceRequest, now: u64)
    ensures
        ({
            let t = after_service_request(s, req, now);
            &&& t.service_requested
            &&& t.service_request_time == decimal(now as nat)
            &&& t.service_type == req.service_type@
            &&& t.status == "Service Requested"@
            &&& t.command == "Connecting you to a technician -- please stand by"@
            &&& t.priority == "action"@
            &&& t.requires_ack == s.requires_ack && t.show_modal == s.show_modal
            &&& t.customer_ack == s.customer_ack && t.customer_message == s.customer_message
            &&& identity_kept(s, t) && truck_kept(s, t) && links_kept(s, t)
            &&& lines_more(
                s,
                t,
                seq![
                    Line {
                        kind: "service_request"@,
                        message: "Driver requested service -- type: "@ + req.service_type@,
                    },
                ],
                now,
            )
        }),
{
}

/// After a report the session holds the connection and the adapter reported, and
/// exactly the faults, the truck and the readings reported, whether or not the
/// adapter was connected before; of these, what the report leaves out stays, as
/// does the rest.
pub proof fn report_sets_what_was_reported(s: SessionView, req: NexiqStatusRequest, now: u64)
    ensures
        ({
            let t = after_nexiq_status(s, req, now);
            &&& t.nexiq_connected == req.connected
            &&& t.adapter_name == req.adapter_name@
            &&& match req.fault_codes {
                Some(f) => t.fault_codes.len() == f@.len() && forall|i: int|
                    0 <= i < f@.len() ==> #[trigger] t.fault_codes[i] == f@[i]@,
                None => t.fault_codes == s.fault_codes,
            }
            &&& match req.truck_info {
                Some(truck) => t.truck_info == Some(truck@),
                None => t.truck_info == s.truck_info,
            }
            &&& match req.live_data {
                Some(l) => t.live_data == Some(l),
                None => t.live_data == s.live_data,
            }
            &&& identity_kept(s, t) && talk_kept(s, t) && call_kept(s, t) && links_kept(s, t)
        }),
{
}

/// The lines that a report leaves: that the adapter has come, with the truck if
/// one is known, or has gone; and how many faults there are, if any.
pub open spec fn report_lines(
    was: bool,
    connected: bool,
    adapter: Seq<char>,
    truck: Option<TruckView>,
    faults: Seq<FaultView>,
) -> Seq<Line> {
    let coming = if connected && !was {
        let hello = seq![Line { kind: "nexiq"@, message: "Nexiq connected: "@ + adapter }];
        match truck {
            Some(t) => hello.push(
                Line {
                    kind: "truck_id"@,
                    message: "VIN: "@ + t.vin + " | "@ + decimal(t.year as nat) + " "@ + t.make
                        + " "@ + t.model + " "@ + t.engine,
                },
            ),
            None => hello,
        }
    } else if was && !connected {
        seq![Line { kind: "nexiq"@, message: "Nexiq disconnected"@ }]
    } else {
        seq![]
    };
    if faults.len() > 0 {
        coming.push(
            Line {
                kind: "fault_codes"@,
                message: decimal(faults.len()) + " fault code(s) detected"@,
            },
        )
    } else {
        coming
    }
}

/// A report logs the adapter's coming or going and the faults that the session
/// then has, and nothing else.
pub proof fn report_logs_its_news(s: SessionView, req: NexiqStatusRequest, now: u64)
    ensures
        ({
            let t = after_nexiq_status(s, req, now);
            lines_more(
                s,
                t,
                report_lines(
                    s.nexiq_connected,
                    req.connected,
                    t.adapter_name,
                    t.truck_info,
                    t.fault_codes,
                ),
                now,
            )
        }),
{
    let t = after_nexiq_status(s, req, now);
    let lines = report_lines(
        s.nexiq_connected,
        req.connected,
        t.adapter_name,
        t.truck_info,
        t.fault_codes,
    );
    assert(lines.len() <= 3);
}

/// After a truck was typed in the session's record holds the odometer and year of
/// the entry, its make, model and engine trimmed, and the number in the spelling
/// to keep, whatever they are; the log shows what was typed; the rest stays.
pub proof fn entry_sets_the_truck(
    s: SessionView,
    req: ManualTruckInfoRequest,
    vin: Seq<char>,
    now: u64,
)
    ensures
        ({
            let t = after_truck_entry(s, req, vin, now);
            &&& t.truck_info matches Some(truck) && truck.vin == vin && truck.make == trimmed(
                req.make@,
            ) && truck.model == trimmed(req.model@) && truck.year == req.year && truck.engine
                == trimmed(req.engine@) && truck.odometer == req.odometer
            &&& t.nexiq_connected == s.nexiq_connected && t.adapter_name == s.adapter_name
            &&& t.fault_codes == s.fault_codes && t.live_data == s.live_data
            &&& identity_kept(s, t) && talk_kept(s, t) && call_kept(s, t) && links_kept(s, t)
            &&& lines_more(
                s,
                t,
                seq![
                    Line {
                        kind: "truck_id"@,
                        message: "Manual entry: "@ + decimal(req.year as nat) + " "@ + req.make@
                            + " "@ + req.model@ + " "@ + req.engine@ + " (VIN: "@ + req.vin@
                            + ")"@,
                    },
                ],
                now,
            )
        }),
{
}

/// After a tablet has registered the session holds its tunnel address, and its
/// desktop address unless that is empty; the rest stays.
pub proof fn registration_sets_the_addresses(
    s: SessionView,
    ws_url: Seq<char>,
    guac_url: Seq<char>,
    now: u64,
)
    ensures
        ({
            let t = after_tablet_register(s, ws_url, guac_url, now);
            &&& t.tablet_ws_url == ws_url
            &&& guac_url.len() > 0 ==> t.guac_url == guac_url
            &&& guac_url.len() == 0 ==> t.guac_url == s.guac_url
            &&& t.connected_techs == s.connected_techs
            &&& identity_kept(s, t) && talk_kept(s, t) && truck_kept(s, t) && call_kept(s, t)
            &&& lines_more(
                s,
                t,
                seq![
                    Line { kind: "tablet"@, message: "Tablet registered tunnel: "@ + ws_url },
                ],
                now,
            )
        }),
{
}

/// A member that is there is taken as it is, and one that is not as empty.
pub proof fn missing_members_count_as_empty(m: Map<Seq<char>, Seq<char>>, key: Seq<char>)
    ensures
        m.contains_key(key) ==> member_text(m, key) == m[key],
        !m.contains_key(key) ==> member_text(m, key).len() == 0,
{
}

/// A driver is let at a session exactly where the session is there and the token
/// is its driver token, whatever else it holds; and is told which of the two was
/// missing.
pub proof fn drivers_need_session_and_token(
    m: Map<Seq<char>, SessionView>,
    id: Seq<char>,
    token: Seq<char>,
)
    ensures
        driver_refusal(m, id, token) is None <==> m.contains_key(id) && m[id].driver_token
            == token,
        !m.contains_key(id) ==> (driver_refusal(m, id, token) matches Some(r) && r.status
            == Status::NotFound && !r.ok && r.message == "Session not found"@),
        m.contains_key(id) && m[id].driver_token != token ==> (driver_refusal(
            m,
            id,
            token,
        ) matches Some(r) && r.status == Status::Unauthorized && !r.ok && r.message
            == "Invalid driver token"@),
{
}

/// A technician is let at a session's status exactly where the session is there
/// and the token is its technician token, whatever else it holds; and is told
/// which of the two was missing.
pub proof fn updates_need_session_and_token(
    m: Map<Seq<char>, SessionView>,
    id: Seq<char>,
    token: Seq<char>,
)
    ensures
        update_refusal(m, id, token) is None <==> m.contains_key(id) && m[id].tech_token == token,
        !m.contains_key(id) ==> (update_refusal(m, id, token) matches Some(r) && r.status
            == Status::NotFound && !r.ok && r.message == "Session not found"@),
        m.contains_key(id) && m[id].tech_token != token ==> (update_refusal(
            m,
            id,
            token,
        ) matches Some(r) && r.status == Status::Unauthorized && !r.ok && r.message
            == "Invalid tech token"@),
{
}

/// The operator's technicians are let into a session exactly where its service is
/// theirs or none was asked for; all others exactly into the sessions of their
/// organisation; whatever else the session holds, and whoever has joined it.
pub proof fn joining_goes_by_service_or_organisation(s: SessionView, tech: TechView)
    ensures
        tech.is_diesellynk ==> (joinable(s, tech) <==> s.service_type == "diesellynk_tech"@
            || s.service_type.len() == 0),
        !tech.is_diesellynk ==> (joinable(s, tech) <==> s.org_id == tech.org_id),
{
}

/// Who has joined a session, and anything else but its service and organisation,
/// has no bearing on who may join it.
pub proof fn joining_ignores_who_is_there(s: SessionView, t: SessionView, tech: TechView)
    requires
        s.service_type == t.service_type,
        s.org_id == t.org_id,
    ensures
        joinable(s, tech) == joinable(t, tech),
{
}

/// A technician is kept out of a session exactly where it is not there or not to
/// be joined, and is told which.
pub proof fn joining_needs_session_and_right(
    m: Map<Seq<char>, SessionView>,
    id: Seq<char>,
    tech: TechView,
)
    ensures
        !m.contains_key(id) ==> (join_refusal(m, id, tech) matches Some(r) && r.status
            == Status::NotFound && !r.ok && r.message == "Session not found"@),
        m.contains_key(id) && !joinable(m[id], tech) ==> (join_refusal(m, id, tech) matches Some(r)
            && r.status == Status::Forbidden && !r.ok && r.message
            == "Access denied -- session belongs to a different organization"@),
        m.contains_key(id) && joinable(m[id], tech) ==> join_refusal(m, id, tech) is None,
{
}

/// A technician who joins is listed behind those who were there, unless the
/// organisation is listed already; everything but the list and the log stays.
pub proof fn joining_adds_the_organisation(s: SessionView, org_id: Seq<char>, now: u64)
    ensures
        ({
            let t = after_join(s, org_id, now);
            &&& if s.connected_techs.contains(org_id) {
                &&& t.connected_techs == s.connected_techs
                &&& lines_more(s, t, seq![], now)
            } else {
                &&& t.connected_techs == s.connected_techs.push(org_id)
                &&& lines_more(
                    s,
                    t,
                    seq![Line { kind: "tech_join"@, message: "Tech joined: "@ + org_id }],
                    now,
                )
            }
            &&& t.tablet_ws_url == s.tablet_ws_url && t.guac_url == s.guac_url
            &&& identity_kept(s, t) && talk_kept(s, t) && truck_kept(s, t) && call_kept(s, t)
        }),
{
}

/// An event that is logged is the last of the log, as it was given, and the log
/// loses nothing unless it holds two hundred or more.
pub proof fn logging_appends(log: Seq<EventView>, e: EventView)
    ensures
        log_after(log, e).last() == e,
        log.len() < 200 ==> log_after(log, e).drop_last() == log,
        log.len() >= 200 ==> log_after(log, e).drop_last() == log.drop_first(),
{
    if log.len() < 200 {
        assert(log_after(log, e).drop_last() =~= log);
    } else {
        assert(log_after(log, e).drop_last() =~= log.drop_first());
    }
}

/// What is answered to a request that was carried out, and to one that was
/// refused.
pub proof fn answers_say_what_happened(status: Status, message: Seq<char>)
    ensures
        crate::reply::done(message) == (ReplyView { status: Status::Success, ok: true, message }),
        crate::reply::refused(status, message) == (ReplyView { status, ok: false, message }),
{
}

} // verus!
