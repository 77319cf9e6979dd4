//! What technicians do: join sessions, list them, and lead them.

use crate::auth::admit_tech;
#[allow(unused_imports)]
use crate::auth::{tech_seen_by, tech_token_valid, tech_touched};
use crate::guac::{revocation_of, GuacConfig, Revocation};
#[allow(unused_imports)]
use crate::guac::{revocation, revocation_view, RevocationView};
use crate::model::{copy_truck, SessionState, TechSession, TruckInfo, UpdateRequest};
#[allow(unused_imports)]
use crate::model::{fault_views, truck_view, EventView, SessionView, TechView, TruckView};
#[allow(unused_imports)]
use crate::numerals::decimal;
use crate::reply::{accept, refuse, Reply, Status};
#[allow(unused_imports)]
use crate::reply::{done, refused, ReplyView};
use crate::session::push_event;
#[allow(unused_imports)]
use crate::session::{log_after, log_fits, logged, same_session};
use crate::table::Table;
#[allow(unused_imports)]
use crate::table::lemma_row;
use crate::text::same;
#[allow(unused_imports)]
use crate::text::texts;
use vstd::prelude::*;
use vstd::string::*;

verus! {

/// Whether a status ends the technician's work on a session.
pub open spec fn ends(status: Seq<char>) -> bool {
    status == "Technician Disconnected"@ || status == "Session Complete"@
}

/// Whether a status ends the technician's work on a session.
pub fn ends_session(status: &str) -> (r: bool)
    ensures
        r == ends(status@),
{
    same(status, "Technician Disconnected") || same(status, "Session Complete")
}

/// Why a technician's change is refused, if it is: there is no such session, or
/// the token is not the session's technician token.
pub open spec fn update_refusal(
    m: Map<Seq<char>, SessionView>,
    id: Seq<char>,
    token: Seq<char>,
) -> Option<ReplyView> {
    if !m.contains_key(id) {
        Some(refused(Status::NotFound, "Session not found"@))
    } else if m[id].tech_token != token {
        Some(refused(Status::Unauthorized, "Invalid tech token"@))
    } else {
        None
    }
}

/// A session whose technicians have left: the call for service is settled,
/// nobody is connected, and the remote desktop is no longer offered.
pub open spec fn closed_out(s: SessionView) -> SessionView {
    SessionView {
        service_requested: false,
        service_request_time: seq![],
        service_type: seq![],
        connected_techs: seq![],
        guac_url: seq![],
        ..s
    }
}

/// A session after a technician's change.
pub open spec fn after_update(s: SessionView, req: UpdateRequest, now: u64) -> SessionView {
    let changed = SessionView {
        status: req.status@,
        command: req.command@,
        requires_ack: req.requires_ack,
        priority: req.priority@,
        show_modal: req.show_modal,
        customer_ack: false,
        customer_message: seq![],
        ..s
    };
    logged(
        if ends(req.status@) {
            closed_out(changed)
        } else {
            changed
        },
        "tech_command"@,
        "Tech: '"@ + req.command@ + "' | "@ + req.priority@,
        now,
    )
}

/// The connection to take away from the gateway when a session is changed so.
pub open spec fn update_revocation(
    s: SessionView,
    req: UpdateRequest,
    c: crate::guac::GuacView,
) -> Option<RevocationView> {
    if ends(req.status@) {
        revocation(s.guac_url, c)
    } else {
        None
    }
}

/// Carries out a technician's change. Beside the answer it gives the connection
/// to take away from the gateway, if there is one.
pub fn update_session(
    sessions: &mut Table<SessionState>,
    id: &str,
    req: &UpdateRequest,
    gateway: &GuacConfig,
    now: u64,
) -> (r: (Reply, Option<Revocation>))
    requires
        old(sessions).wf(),
    ensures
        final(sessions).wf(),
        match update_refusal(old(sessions)@, id@, req.tech_token@) {
            Some(e) => {
                &&& r.0@ == e
                &&& r.1 is None
                &&& final(sessions)@ == old(sessions)@
            },
            None => {
                &&& r.0@ == done("Updated"@)
                &&& revocation_view(r.1) == update_revocation(
                    old(sessions)@[id@],
                    *req,
                    gateway@,
                )
                &&& final(sessions)@ == old(sessions)@.insert(
                    id@,
                    after_update(old(sessions)@[id@], *req, now),
                )
            },
        },
{
    let session = match sessions.get_mut(id) {
        Some(s) => s,
        None => return (refuse(Status::NotFound, "Session not found"), None),
    };
    if !same(session.tech_token.as_str(), req.tech_token.as_str()) {
        return (refuse(Status::Unauthorized, "Invalid tech token"), None);
    }
    session.status = req.status.clone();
    session.command = req.command.clone();
    session.requires_ack = req.requires_ack;
    session.priority = req.priority.clone();
    session.show_modal = req.show_modal;
    session.customer_ack = false;
    session.customer_message = String::new();
    let mut revoke: Option<Revocation> = None;
    if ends_session(req.status.as_str()) {
        revoke = revocation_of(session.guac_url.as_str(), gateway);
        session.service_requested = false;
        session.service_request_time = String::new();
        session.service_type = String::new();
        session.connected_techs = Vec::new();
        session.guac_url = String::new();
        assert(texts(session.connected_techs@) =~= seq![]);
    }
    let mut message = "Tech: '".to_owned();
    message.append(session.command.as_str());
    message.append("' | ");
    message.append(session.priority.as_str());
    push_event(session, "tech_command", message, now);
    (accept("Updated"), revoke)
}

/// Whether a change leaves a row in the history: it was carried out, and its
/// status ends the work.
pub fn leaves_history(reply: &Reply, status: &str) -> (r: bool)
    ensures
        r == (reply@.ok && ends(status@)),
{
    reply.body.ok && ends_session(status)
}

/// Whether a technician may join a session. The operator's technicians join
/// where their service was asked for or none was; others join the sessions of
/// their own organisation.
pub open spec fn joinable(s: SessionView, tech: TechView) -> bool {
    if tech.is_diesellynk {
        s.service_type == "diesellynk_tech"@ || s.service_type.len() == 0
    } else {
        s.org_id == tech.org_id
    }
}

/// A session after a technician has joined. One whose organisation has joined
/// already changes nothing.
pub open spec fn after_join(s: SessionView, org_id: Seq<char>, now: u64) -> SessionView {
    if s.connected_techs.contains(org_id) {
        s
    } else {
        logged(
            SessionView { connected_techs: s.connected_techs.push(org_id), ..s },
            "tech_join"@,
            "Tech joined: "@ + org_id,
            now,
        )
    }
}

/// Why a technician who is logged in may not join, if so.
pub open spec fn join_refusal(
    m: Map<Seq<char>, SessionView>,
    id: Seq<char>,
    tech: TechView,
) -> Option<ReplyView> {
    if !m.contains_key(id) {
        Some(refused(Status::NotFound, "Session not found"@))
    } else if !joinable(m[id], tech) {
        Some(
            refused(
                Status::Forbidden,
                "Access denied -- session belongs to a different organization"@,
            ),
        )
    } else {
        None
    }
}

/// What a technician who has joined is told.
#[derive(Debug)]
pub struct TechJoin {
    /// The session's id.
    pub session_id: String,
    /// The session's technician token.
    pub tech_token: String,
    /// The organisation that the truck belongs to.
    pub org_id: String,
    /// Whether the session was changed by it.
    pub changed: bool,
}

/// What a technician of the organisation who joins the session `s` is told.
pub open spec fn answers_join(j: TechJoin, s: SessionView, org_id: Seq<char>) -> bool {
    &&& j.session_id@ == s.session_id
    &&& j.tech_token@ == s.tech_token
    &&& j.org_id@ == s.org_id
    &&& j.changed == !s.connected_techs.contains(org_id)
}

fn contains_text(list: &Vec<String>, t: &str) -> (r: bool)
    ensures
        r == texts(list@).contains(t@),
{
    let mut i: usize = 0;
    while i < list.len()
        invariant
            i <= list@.len(),
            forall|j: int| 0 <= j < i ==> (#[trigger] texts(list@)[j]) != t@,
        decreases list@.len() - i,
    {
        assert(texts(list@)[i as int] == list@[i as int]@);
        if same(list[i].as_str(), t) {
            return true;
        }
        i += 1;
    }
    false
}

fn may_join(s: &SessionState, tech: &TechSession) -> (r: bool)
    ensures
        r == joinable(s@, tech@),
{
    if tech.is_diesellynk {
        same(s.service_type.as_str(), "diesellynk_tech") || s.service_type.as_str().is_empty()
    } else {
        same(s.org_id.as_str(), tech.org_id.as_str())
    }
}

proof fn lemma_joining_anywhere(m: Map<Seq<char>, SessionView>, id: Seq<char>, now: u64)
    requires
        nobody_twice(m),
    ensures
        forall|org_id: Seq<char>|
            m.contains_key(id) ==> nobody_twice(
                m.insert(id, #[trigger] after_join(m[id], org_id, now)),
            ),
{
    if m.contains_key(id) {
        assert forall|org_id: Seq<char>| nobody_twice(
            m.insert(id, #[trigger] after_join(m[id], org_id, now)),
        ) by {
            joining_lists_nobody_twice(m[id], org_id, now);
        }
    }
}

/// Lets a technician join a session. A technician whose login counts is noted
/// as seen, whether or not there is anything to join.
pub fn tech_join(
    techs: &mut Table<TechSession>,
    sessions: &mut Table<SessionState>,
    id: &str,
    token: &str,
    now: u64,
) -> (r: Result<TechJoin, Reply>)
    requires
        old(techs).wf(),
        old(sessions).wf(),
        tech_seen_by(old(techs)@, token@, now),
    ensures
        final(techs).wf(),
        final(sessions).wf(),
        if !tech_token_valid(old(techs)@, token@, now) {
            &&& r matches Err(e) && e@ == refused(
                Status::Unauthorized,
                "Invalid or expired token -- please log in again"@,
            )
            &&& final(techs)@ == old(techs)@
            &&& final(sessions)@ == old(sessions)@
        } else {
            let tech = old(techs)@[token@];
            &&& final(techs)@ == tech_touched(old(techs)@, token@, now)
            &&& match join_refusal(old(sessions)@, id@, tech) {
                Some(refusal) => {
                    &&& r matches Err(e) && e@ == refusal
                    &&& final(sessions)@ == old(sessions)@
                },
                None => {
                    let s = old(sessions)@[id@];
                    &&& r matches Ok(j) && answers_join(j, s, tech.org_id)
                    &&& final(sessions)@ == old(sessions)@.insert(
                        id@,
                        after_join(s, tech.org_id, now),
                    )
                },
            }
        },
        nobody_twice(old(sessions)@) ==> nobody_twice(final(sessions)@),
{
    proof {
        if nobody_twice(old(sessions)@) {
            lemma_joining_anywhere(old(sessions)@, id@, now);
        }
    }
    let tech = match admit_tech(techs, Some(token), now) {
        Some(t) => t,
        None => return Err(
            refuse(
                Status::Unauthorized,
                "Invalid or expired token -- please log in again",
            ),
        ),
    };
    let session = match sessions.get_mut(id) {
        Some(s) => s,
        None => return Err(refuse(Status::NotFound, "Session not found")),
    };
    if !may_join(session, &tech) {
        return Err(
            refuse(
                Status::Forbidden,
                "Access denied -- session belongs to a different organization",
            ),
        );
    }
    let mut changed = false;
    if !contains_text(&session.connected_techs, tech.org_id.as_str()) {
        let ghost before = texts(session.connected_techs@);
        session.connected_techs.push(tech.org_id.clone());
        assert(texts(session.connected_techs@) =~= before.push(tech.org_id@));
        let mut message = "Tech joined: ".to_owned();
        message.append(tech.org_id.as_str());
        push_event(session, "tech_join", message, now);
        changed = true;
    }
    Ok(
        TechJoin {
            session_id: session.session_id.clone(),
            tech_token: session.tech_token.clone(),
            org_id: session.org_id.clone(),
            changed,
        },
    )
}

/// Whether a technician sees a session in the list. The operator's technicians
/// see those where their service was asked for, and the operator's own; others
/// see the sessions of their own organisation.
pub open spec fn visible(s: SessionView, tech: TechView) -> bool {
    if tech.is_diesellynk {
        s.service_type == "diesellynk_tech"@ || s.org_id == "diesellynk"@
    } else {
        s.org_id == tech.org_id
    }
}

/// A session in brief.
#[derive(Debug)]
pub struct SessionSummary {
    /// Its id.
    pub session_id: String,
    /// The organisation that the truck belongs to.
    pub org_id: String,
    /// How it stands.
    pub status: String,
    /// Whether the driver has asked for service.
    pub service_requested: bool,
    /// What service was asked for.
    pub service_type: String,
    /// Whether the diagnostic adapter is connected.
    pub nexiq_connected: bool,
    /// How many faults the truck reported.
    pub fault_code_count: usize,
    /// What is known of the truck.
    pub truck_info: Option<TruckInfo>,
    /// When service was asked for.
    pub service_request_time: String,
    /// Which adapter it is.
    pub adapter_name: String,
    /// How many organisations have joined.
    pub connected_tech_count: usize,
}

/// The contents of a [`SessionSummary`].
#[verifier::ext_equal]
pub struct SummaryView {
    /// Its id.
    pub session_id: Seq<char>,
    /// The organisation that the truck belongs to.
    pub org_id: Seq<char>,
    /// How it stands.
    pub status: Seq<char>,
    /// Whether the driver has asked for service.
    pub service_requested: bool,
    /// What service was asked for.
    pub service_type: Seq<char>,
    /// Whether the diagnostic adapter is connected.
    pub nexiq_connected: bool,
    /// How many faults the truck reported.
    pub fault_code_count: nat,
    /// What is known of the truck.
    pub truck_info: Option<TruckView>,
    /// When service was asked for.
    pub service_request_time: Seq<char>,
    /// Which adapter it is.
    pub adapter_name: Seq<char>,
    /// How many organisations have joined.
    pub connected_tech_count: nat,
}

impl View for SessionSummary {
    type V = SummaryView;

    open spec fn view(&self) -> SummaryView {
        SummaryView {
            session_id: self.session_id@,
            org_id: self.org_id@,
            status: self.status@,
            service_requested: self.service_requested,
            service_type: self.service_type@,
            nexiq_connected: self.nexiq_connected,
            fault_code_count: self.fault_code_count as nat,
            truck_info: truck_view(self.truck_info),
            service_request_time: self.service_request_time@,
            adapter_name: self.adapter_name@,
            connected_tech_count: self.connected_tech_count as nat,
        }
    }
}

/// A session in brief.
pub open spec fn summary(s: SessionView) -> SummaryView {
    SummaryView {
        session_id: s.session_id,
        org_id: s.org_id,
        status: s.status,
        service_requested: s.service_requested,
        service_type: s.service_type,
        nexiq_connected: s.nexiq_connected,
        fault_code_count: s.fault_codes.len(),
        truck_info: s.truck_info,
        service_request_time: s.service_request_time,
        adapter_name: s.adapter_name,
        connected_tech_count: s.connected_techs.len(),
    }
}

/// A session in brief.
pub fn summary_of(s: &SessionState) -> (r: SessionSummary)
    ensures
        r@ == summary(s@),
{
    SessionSummary {
        session_id: s.session_id.clone(),
        org_id: s.org_id.clone(),
        status: s.status.clone(),
        service_requested: s.service_requested,
        service_type: s.service_type.clone(),
        nexiq_connected: s.nexiq_connected,
        fault_code_count: s.fault_codes.len(),
        truck_info: copy_truck(&s.truck_info),
        service_request_time: s.service_request_time.clone(),
        adapter_name: s.adapter_name.clone(),
        connected_tech_count: s.connected_techs.len(),
    }
}

/// The contents of a list of summaries.
pub open spec fn summary_views(v: Seq<SessionSummary>) -> Seq<SummaryView> {
    v.map_values(|s: SessionSummary| s@)
}

/// The sessions that a technician sees, in brief, in the order of the rows.
pub open spec fn visible_summaries(
    rows: Seq<(Seq<char>, SessionView)>,
    tech: TechView,
) -> Seq<SummaryView> {
    rows.filter(|r: (Seq<char>, SessionView)| visible(r.1, tech)).map_values(
        |r: (Seq<char>, SessionView)| summary(r.1),
    )
}

fn is_visible(s: &SessionState, tech: &TechSession) -> (r: bool)
    ensures
        r == visible(s@, tech@),
{
    if tech.is_diesellynk {
        same(s.service_type.as_str(), "diesellynk_tech") || same(s.org_id.as_str(), "diesellynk")
    } else {
        same(s.org_id.as_str(), tech.org_id.as_str())
    }
}

fn list_visible(sessions: &Table<SessionState>, tech: &TechSession) -> (r: Vec<SessionSummary>)
    ensures
        summary_views(r@) == visible_summaries(sessions.rows(), tech@),
{
    let ghost rows = sessions.rows();
    let ghost see = |r: (Seq<char>, SessionView)| visible(r.1, tech@);
    let n: usize = sessions.len();
    let mut list: Vec<SessionSummary> = Vec::new();
    let mut i: usize = 0;
    proof {
        rows.take(0).lemma_filter_len(see);
    }
    assert(summary_views(list@) =~= visible_summaries(rows.take(0), tech@));
    while i < n
        invariant
            i <= n == rows.len(),
            rows == sessions.rows(),
            see == (|r: (Seq<char>, SessionView)| visible(r.1, tech@)),
            summary_views(list@) == visible_summaries(rows.take(i as int), tech@),
        decreases n - i,
    {
        let ghost before = summary_views(list@);
        assert(rows.take(i + 1) =~= rows.take(i as int).push(rows[i as int]));
        proof {
            rows.take(i as int).lemma_filter_push(rows[i as int], see);
        }
        let s = sessions.value_at(i);
        if is_visible(s, tech) {
            let brief = summary_of(s);
            list.push(brief);
            assert(summary_views(list@) =~= before.push(brief@));
            assert(visible_summaries(rows.take(i + 1), tech@) =~= before.push(
                summary(rows[i as int].1),
            ));
        }
        i += 1;
    }
    assert(rows.take(n as int) =~= rows);
    list
}

/// Lists the sessions that a technician sees. The technician is noted as seen.
pub fn active_sessions(
    techs: &mut Table<TechSession>,
    sessions: &Table<SessionState>,
    token: Option<&str>,
    now: u64,
) -> (r: Result<Vec<SessionSummary>, Reply>)
    requires
        old(techs).wf(),
        token matches Some(t) ==> tech_seen_by(old(techs)@, t@, now),
    ensures
        final(techs).wf(),
        match r {
            Ok(list) => {
                &&& token is Some
                &&& tech_token_valid(old(techs)@, token->0@, now)
                &&& final(techs)@ == tech_touched(old(techs)@, token->0@, now)
                &&& summary_views(list@) == visible_summaries(
                    sessions.rows(),
                    old(techs)@[token->0@],
                )
            },
            Err(e) => {
                &&& token matches Some(t) ==> !tech_token_valid(old(techs)@, t@, now)
                &&& final(techs)@ == old(techs)@
                &&& e@ == refused(Status::Unauthorized, "Please log in to view sessions"@)
            },
        },
{
    let tech = match admit_tech(techs, token, now) {
        Some(t) => t,
        None => return Err(refuse(Status::Unauthorized, "Please log in to view sessions")),
    };
    Ok(list_visible(sessions, &tech))
}

/// The list shows every session that the technician sees.
pub proof fn list_shows_what_is_visible(
    rows: Seq<(Seq<char>, SessionView)>,
    tech: TechView,
    i: int,
)
    requires
        0 <= i < rows.len(),
        visible(rows[i].1, tech),
    ensures
        visible_summaries(rows, tech).contains(summary(rows[i].1)),
{
    let see = |r: (Seq<char>, SessionView)| visible(r.1, tech);
    let seen = rows.filter(see);
    rows.lemma_filter_contains(see, i);
    let j = choose|j: int| 0 <= j < seen.len() && seen[j] == rows[i];
    assert(visible_summaries(rows, tech)[j] == summary(rows[i].1));
}

/// The list shows nothing but sessions that the technician sees.
pub proof fn list_hides_what_is_not_visible(
    rows: Seq<(Seq<char>, SessionView)>,
    tech: TechView,
    j: int,
)
    requires
        0 <= j < visible_summaries(rows, tech).len(),
    ensures
        exists|i: int|
            0 <= i < rows.len() && visible((#[trigger] rows[i]).1, tech) && visible_summaries(
                rows,
                tech,
            )[j] == summary(rows[i].1),
{
    let see = |r: (Seq<char>, SessionView)| visible(r.1, tech);
    let seen = rows.filter(see);
    rows.lemma_filter_pred(see, j);
    rows.lemma_filter_contains_rev(see, seen[j]);
    let i = choose|i: int| 0 <= i < rows.len() && rows[i] == seen[j];
    assert(visible(rows[i].1, tech));
}

/// The technicians of an organisation see exactly the sessions that they may
/// join, and these are the organisation's own.
pub proof fn organisations_are_kept_apart(s: SessionView, tech: TechView)
    requires
        !tech.is_diesellynk,
    ensures
        visible(s, tech) == joinable(s, tech),
        joinable(s, tech) == (s.org_id == tech.org_id),
{
}

/// Joining twice is joining once.
pub proof fn joining_again_changes_nothing(
    s: SessionView,
    org_id: Seq<char>,
    now: u64,
    later: u64,
)
    ensures
        after_join(after_join(s, org_id, now), org_id, later) == after_join(s, org_id, now),
        after_join(s, org_id, now).connected_techs.contains(org_id),
{
    let joined = s.connected_techs.push(org_id);
    assert(joined[joined.len() - 1] == org_id);
}

/// Ending the work leaves nobody connected, no desktop address and no open call
/// for service.
pub proof fn ending_takes_access_away(s: SessionView, req: UpdateRequest, now: u64)
    requires
        ends(req.status@),
    ensures
        after_update(s, req, now).connected_techs.len() == 0,
        after_update(s, req, now).guac_url.len() == 0,
        !after_update(s, req, now).service_requested,
        after_update(s, req, now).service_type.len() == 0,
{
}

/// A technician's change leaves the session the same, keeps its log within the
/// limit and counts as activity.
pub proof fn update_keeps_the_session(s: SessionView, req: UpdateRequest, now: u64)
    ensures
        same_session(s, after_update(s, req, now)),
        log_fits(s) ==> log_fits(after_update(s, req, now)),
        after_update(s, req, now).last_activity == now,
{
}

/// A technician who joins leaves the session the same and keeps its log within
/// the limit. Only the first of an organisation counts as activity.
pub proof fn joining_keeps_the_session(s: SessionView, org_id: Seq<char>, now: u64)
    ensures
        same_session(s, after_join(s, org_id, now)),
        log_fits(s) ==> log_fits(after_join(s, org_id, now)),
        after_join(s, org_id, now).last_activity == if s.connected_techs.contains(org_id) {
            s.last_activity
        } else {
            now
        },
{
}

/// In no session is an organisation listed twice among those that have joined.
pub open spec fn nobody_twice(m: Map<Seq<char>, SessionView>) -> bool {
    forall|k: Seq<char>| #[trigger] m.contains_key(k) ==> m[k].connected_techs.no_duplicates()
}

/// A technician who joins is listed, behind those who were there, and no
/// organisation comes to be listed twice.
pub proof fn joining_lists_nobody_twice(s: SessionView, org_id: Seq<char>, now: u64)
    requires
        s.connected_techs.no_duplicates(),
    ensures
        after_join(s, org_id, now).connected_techs.no_duplicates(),
        after_join(s, org_id, now).connected_techs.contains(org_id),
        s.connected_techs.is_prefix_of(after_join(s, org_id, now).connected_techs),
{
    let joined = s.connected_techs.push(org_id);
    assert(joined[joined.len() - 1] == org_id);
    assert(joined.take(s.connected_techs.len() as int) =~= s.connected_techs);
    assert(s.connected_techs.is_prefix_of(joined));
}

/// Joining is logged exactly where the organisation had not joined before.
pub proof fn first_joining_is_logged(s: SessionView, org_id: Seq<char>, now: u64)
    ensures
        after_join(s, org_id, now).event_log == if s.connected_techs.contains(org_id) {
            s.event_log
        } else {
            log_after(
                s.event_log,
                EventView {
                    timestamp: decimal(now as nat),
                    kind: "tech_join"@,
                    message: "Tech joined: "@ + org_id,
                },
            )
        },
{
}

/// A technician's change leaves nobody listed twice.
pub proof fn update_lists_nobody_twice(s: SessionView, req: UpdateRequest, now: u64)
    requires
        s.connected_techs.no_duplicates(),
    ensures
        after_update(s, req, now).connected_techs.no_duplicates(),
{
}

/// A technician's change asks the driver anew: earlier answers no longer count.
pub proof fn update_withdraws_the_answer(s: SessionView, req: UpdateRequest, now: u64)
    ensures
        !after_update(s, req, now).customer_ack,
        after_update(s, req, now).customer_message.len() == 0,
        after_update(s, req, now).requires_ack == req.requires_ack,
{
}

/// A status that does not end the work leaves the technicians, the call for
/// service and the desktop address as they are, and revokes nothing.
pub proof fn other_changes_keep_access(
    s: SessionView,
    req: UpdateRequest,
    c: crate::guac::GuacView,
    now: u64,
)
    requires
        !ends(req.status@),
    ensures
        after_update(s, req, now).connected_techs == s.connected_techs,
        after_update(s, req, now).guac_url == s.guac_url,
        after_update(s, req, now).service_requested == s.service_requested,
        after_update(s, req, now).service_type == s.service_type,
        update_revocation(s, req, c) is None,
{
}

} // verus!
