//! What is shown of sessions, organisations and sockets, and to whom.

#[allow(unused_imports)]
use crate::admin::{
    added_reply, admin_summary, has_adapter, has_call, has_many_techs, org_summary,
    session_of_org, tally, tech_of_org,
};
#[allow(unused_imports)]
use crate::model::{OrgView, SessionView, TechView};
#[allow(unused_imports)]
use crate::outcome::{follows, Outcome};
#[allow(unused_imports)]
use crate::registry::{
    describes, idle_ids, is_latest, published, session_live, CreateSessionResponse,
};
#[allow(unused_imports)]
use crate::reply::{ReplyView, Status};
#[allow(unused_imports)]
use crate::rooms::{
    after_connect, after_disconnect, answer_to, members, shows_life, RoomsView, SocketAnswer,
    SocketEvent,
};
#[allow(unused_imports)]
use crate::store::{stored_as, WrittenDocs};
#[allow(unused_imports)]
use crate::technician::{summary, visible, visible_summaries};
#[allow(unused_imports)]
use crate::text::position;
use vstd::prelude::*;
use vstd::string::*;

verus! {

/// Two sessions that are shown alike agree in everything but their tokens: what
/// is shown determines the rest.
pub proof fn shown_alike_is_alike(a: SessionView, b: SessionView)
    requires
        published(a) == published(b),
    ensures
        a == (SessionView { driver_token: a.driver_token, tech_token: a.tech_token, ..b }),
{
}

/// A session is shown as it is, field by field.
pub proof fn shown_as_it_is(s: SessionView)
    ensures
        ({
            let p = published(s);
            &&& p.session_id == s.session_id && p.org_id == s.org_id
            &&& p.status == s.status && p.command == s.command && p.priority == s.priority
            &&& p.requires_ack == s.requires_ack && p.show_modal == s.show_modal
            &&& p.customer_ack == s.customer_ack && p.customer_message == s.customer_message
            &&& p.nexiq_connected == s.nexiq_connected && p.adapter_name == s.adapter_name
            &&& p.fault_codes == s.fault_codes && p.truck_info == s.truck_info
            &&& p.live_data == s.live_data
            &&& p.service_requested == s.service_requested
            &&& p.service_request_time == s.service_request_time
            &&& p.service_type == s.service_type
            &&& p.tablet_ws_url == s.tablet_ws_url && p.guac_url == s.guac_url
            &&& p.event_log == s.event_log && p.connected_techs == s.connected_techs
            &&& p.last_activity == s.last_activity
        }),
{
}

/// The operator's technicians see exactly the sessions that call for them and the
/// operator's own; all others exactly those of their organisation; whatever else
/// the session holds.
pub proof fn seeing_goes_by_service_or_organisation(s: SessionView, tech: TechView)
    ensures
        tech.is_diesellynk ==> (visible(s, tech) <==> s.service_type == "diesellynk_tech"@
            || s.org_id == "diesellynk"@),
        !tech.is_diesellynk ==> (visible(s, tech) <==> s.org_id == tech.org_id),
{
}

/// A session in brief agrees with the session, and counts its faults and those
/// who have joined.
pub proof fn summaries_agree_with_the_session(s: SessionView)
    ensures
        ({
            let b = summary(s);
            let a = admin_summary(s);
            &&& b.session_id == s.session_id && a.session_id == s.session_id
            &&& b.org_id == s.org_id && a.org_id == s.org_id
            &&& b.status == s.status && a.status == s.status
            &&& b.service_requested == s.service_requested
            &&& a.service_requested == s.service_requested
            &&& b.service_type == s.service_type && a.service_type == s.service_type
            &&& b.nexiq_connected == s.nexiq_connected && a.nexiq_connected == s.nexiq_connected
            &&& b.fault_code_count == s.fault_codes.len()
            &&& a.fault_code_count == s.fault_codes.len()
            &&& b.truck_info == s.truck_info && a.truck_info == s.truck_info
            &&& b.service_request_time == s.service_request_time
            &&& a.service_request_time == s.service_request_time
            &&& b.connected_tech_count == s.connected_techs.len()
            &&& a.connected_tech_count == s.connected_techs.len()
            &&& b.adapter_name == s.adapter_name
            &&& a.tablet_ws_url == s.tablet_ws_url
        }),
{
}

/// One row more adds its session to the end of the list where the technician sees
/// it, and changes nothing where not; so the list shows each visible row once, in
/// order.
pub proof fn list_grows_by_visible_rows(
    rows: Seq<(Seq<char>, SessionView)>,
    row: (Seq<char>, SessionView),
    tech: TechView,
)
    ensures
        visible_summaries(seq![], tech).len() == 0,
        visible_summaries(rows.push(row), tech) == if visible(row.1, tech) {
            visible_summaries(rows, tech).push(summary(row.1))
        } else {
            visible_summaries(rows, tech)
        },
{
    let see = |r: (Seq<char>, SessionView)| visible(r.1, tech);
    rows.lemma_filter_push(row, see);
    Seq::<(Seq<char>, SessionView)>::empty().lemma_filter_len(see);
    let more = visible_summaries(rows.push(row), tech);
    if visible(row.1, tech) {
        assert(more =~= visible_summaries(rows, tech).push(summary(row.1)));
    }
}

/// A tablet is led to a session of its organisation than which none of the
/// organisation was active later.
pub proof fn latest_is_latest(
    rows: Seq<(Seq<char>, SessionView)>,
    org_id: Seq<char>,
    i: int,
    j: int,
)
    requires
        is_latest(rows, org_id, i),
        0 <= j < rows.len(),
        rows[j].1.org_id == org_id,
    ensures
        0 <= i < rows.len(),
        rows[i].1.org_id == org_id,
        rows[j].1.last_activity <= rows[i].1.last_activity,
{
}

/// A session is kept exactly for twelve hours after anything happened in it,
/// whatever it holds.
pub proof fn sessions_stay_for_twelve_hours(s: SessionView, now: u64)
    ensures
        session_live(now)(s) <==> now <= s.last_activity + 43200,
{
}

/// One row more is listed as idle exactly where nothing happened in it for more
/// than twelve hours.
pub proof fn idle_list_grows_by_idle_rows(
    rows: Seq<(Seq<char>, SessionView)>,
    row: (Seq<char>, SessionView),
    now: u64,
)
    ensures
        idle_ids(seq![], now).len() == 0,
        idle_ids(rows.push(row), now) == if now > row.1.last_activity + 43200 {
            idle_ids(rows, now).push(row.1.session_id)
        } else {
            idle_ids(rows, now)
        },
{
    let idle = |r: (Seq<char>, SessionView)| !session_live(now)(r.1);
    rows.lemma_filter_push(row, idle);
    Seq::<(Seq<char>, SessionView)>::empty().lemma_filter_len(idle);
    if now > row.1.last_activity + 43200 {
        assert(idle_ids(rows.push(row), now) =~= idle_ids(rows, now).push(row.1.session_id));
    }
}

/// Who opens a session is told its id, organisation and tokens, and the pages
/// that name its id and organisation.
pub proof fn opening_is_answered_with_the_session(r: CreateSessionResponse, s: SessionView)
    requires
        describes(r, s),
    ensures
        r.session_id@ == s.session_id,
        r.org_id@ == s.org_id,
        r.driver_token@ == s.driver_token,
        r.tech_token@ == s.tech_token,
        r.tech_url@ == "/tech.html"@ + "?session="@ + s.session_id + "&org="@ + s.org_id,
        r.driver_url@ == "/index.html"@ + "?session="@ + s.session_id + "&org="@ + s.org_id,
{
}

/// A tally counts the rows that pass.
pub proof fn tally_counts_what_passes<A>(
    rows: Seq<(Seq<char>, A)>,
    row: (Seq<char>, A),
    p: spec_fn(A) -> bool,
)
    ensures
        tally(Seq::<(Seq<char>, A)>::empty(), p) == 0,
        tally(rows.push(row), p) == tally(rows, p) + if p(row.1) {
            1int
        } else {
            0
        },
{
    assert(rows.push(row).drop_last() =~= rows);
}

/// What administrators have counted: calls for service, connected adapters,
/// sessions that two or more organisations have joined, and the sessions and
/// technicians of an organisation.
pub proof fn counts_are_of_what_they_say(s: SessionView, t: TechView, org_id: Seq<char>)
    ensures
        has_call()(s) <==> s.service_requested,
        has_adapter()(s) <==> s.nexiq_connected,
        has_many_techs()(s) <==> s.connected_techs.len() >= 2,
        session_of_org(org_id)(s) <==> s.org_id == org_id,
        tech_of_org(org_id)(t) <==> t.org_id == org_id,
{
}

/// An organisation in brief agrees with the organisation, and counts its own
/// sessions and technicians.
pub proof fn organisation_summaries_agree(
    row: (Seq<char>, OrgView),
    sessions: Seq<(Seq<char>, SessionView)>,
    techs: Seq<(Seq<char>, TechView)>,
)
    ensures
        ({
            let o = org_summary(row, sessions, techs);
            &&& o.org_id == row.0
            &&& o.display_name == row.1.display_name
            &&& o.is_diesellynk == row.1.is_diesellynk
            &&& o.session_count == tally(sessions, |s: SessionView| s.org_id == row.0)
            &&& o.active_techs == tally(techs, |t: TechView| t.org_id == row.0)
            &&& o.password_set
        }),
{
    assert(session_of_org(row.0) =~= (|s: SessionView| s.org_id == row.0));
    assert(tech_of_org(row.0) =~= (|t: TechView| t.org_id == row.0));
}

/// Adding an organisation is answered by how the database took it.
pub proof fn adding_is_answered(org_id: Seq<char>, complaint: Option<String>)
    ensures
        ({
            let r = added_reply(org_id, complaint);
            match complaint {
                None => r.ok && r.status == Status::Success && r.message == "Org '"@ + org_id
                    + "' created"@,
                Some(e) => !r.ok && (position(e@, "UNIQUE"@) is Some ==> r.status
                    == Status::Conflict && r.message == "Org already exists"@) && (position(
                    e@,
                    "UNIQUE"@,
                ) is None ==> r.status == Status::InternalServerError && r.message == e@),
            }
        }),
{
}

/// What follows from a request is, where it was carried out, one row of the
/// session and one showing of it in its own room, both of the session as it
/// stands; and otherwise nothing.
pub proof fn outcome_is_of_the_session_itself(
    o: Option<Outcome>,
    reply: ReplyView,
    m: Map<Seq<char>, SessionView>,
    id: Seq<char>,
    docs: WrittenDocs,
    now: u64,
)
    requires
        follows(o, reply, m, id, docs, now),
    ensures
        o is Some <==> reply.ok && m.contains_key(id),
        o matches Some(out) ==> out.room@ == id && out.state@ == published(m[id]) && stored_as(
            out.row,
            m[id],
            docs,
            now,
        ),
{
}

/// The sockets of a room are those that it holds, and none where there is no such
/// room.
pub proof fn members_are_of_the_room<R>(v: RoomsView<R>, room: Seq<char>)
    ensures
        v.rooms.contains_key(room) ==> members(v, room) == v.rooms[room],
        !v.rooms.contains_key(room) ==> members(v, room).len() == 0,
{
}

/// Each socket that comes gets the next id; none is given back when one goes.
pub proof fn ids_go_up<R>(v: RoomsView<R>, room: Seq<char>, addr: R, id: usize)
    requires
        v.next_id < usize::MAX,
    ensures
        after_connect(v, room, addr).next_id == v.next_id + 1,
        after_disconnect(v, room, id).next_id == v.next_id,
{
}

/// Pings, pongs, texts and bytes are signs of life; a ping is answered, a close is
/// returned, a broken protocol ends the socket, and nothing else is done.
pub proof fn socket_events_are_answered(e: SocketEvent)
    ensures
        shows_life(e) <==> e == SocketEvent::Ping || e == SocketEvent::Pong || e
            == SocketEvent::Text || e == SocketEvent::Binary,
        answer_to(e) == SocketAnswer::Pong <==> e == SocketEvent::Ping,
        answer_to(e) == SocketAnswer::CloseAndStop <==> e == SocketEvent::Close,
        answer_to(e) == SocketAnswer::Stop <==> e == SocketEvent::ProtocolError,
{
}

} // verus!
