//! The sessions as a whole: opening, finding, showing and expiring them.

use crate::auth::org_key_of;
#[allow(unused_imports)]
use crate::auth::{ascii_key_known, org_key};
use crate::clock::session_id_at;
#[allow(unused_imports)]
use crate::clock::{session_id_text, token_text};
use crate::config::or_default;
#[allow(unused_imports)]
use crate::config::setting_or;
use crate::model::{copy_truck, EventEntry, FaultCode, LiveData, SessionState, TruckInfo};
#[allow(unused_imports)]
use crate::model::{
    event_views, fault_views, truck_view, EventView, FaultView, SessionView, TruckView,
};
use crate::reply::{refuse, Reply, Status};
#[allow(unused_imports)]
use crate::reply::refused;
use crate::session::default_session;
#[allow(unused_imports)]
use crate::session::{driver_refusal, fresh_session, same_session};
use crate::table::Table;
#[allow(unused_imports)]
use crate::table::{distinct_keys, kept, lemma_row, row_of, rows_map};
#[allow(unused_imports)]
use crate::technician::update_refusal;
use crate::text::same;
#[allow(unused_imports)]
use crate::text::texts;
use vstd::prelude::*;
use vstd::string::*;

verus! {

/// How long a session lasts without anything happening in it, in seconds.
pub const SESSION_IDLE_LIMIT: u64 = 43200;

/// How often idle sessions, stale logins and old counts are cleaned up, in
/// seconds.
pub const CLEANUP_INTERVAL: u64 = 300;

/// Every session stands under its own id.
pub open spec fn keyed(m: Map<Seq<char>, SessionView>) -> bool {
    forall|k: Seq<char>| #[trigger] m.contains_key(k) ==> m[k].session_id == k
}

/// Putting a session under its id keeps every session under its id.
pub proof fn insertion_keeps_keys(m: Map<Seq<char>, SessionView>, s: SessionView)
    requires
        keyed(m),
    ensures
        keyed(m.insert(s.session_id, s)),
{
}

/// A change that leaves a session the same keeps every session under its id,
/// and all other sessions as they are.
pub proof fn changes_keep_keys(
    m: Map<Seq<char>, SessionView>,
    id: Seq<char>,
    changed: SessionView,
    other: Seq<char>,
)
    requires
        keyed(m),
        m.contains_key(id),
        same_session(m[id], changed),
        other != id,
    ensures
        keyed(m.insert(id, changed)),
        m.insert(id, changed).contains_key(other) == m.contains_key(other),
        m.insert(id, changed)[other] == m[other],
{
}

/// What a driver who opened a session is told.
#[derive(Debug)]
pub struct CreateSessionResponse {
    /// The session's id.
    pub session_id: String,
    /// The organisation.
    pub org_id: String,
    /// The session's driver token.
    pub driver_token: String,
    /// The session's technician token.
    pub tech_token: String,
    /// Where technicians find it.
    pub tech_url: String,
    /// Where the driver finds it.
    pub driver_url: String,
}

/// A page for a session.
pub open spec fn page_url(page: Seq<char>, session_id: Seq<char>, org_id: Seq<char>) -> Seq<char> {
    page + "?session="@ + session_id + "&org="@ + org_id
}

fn page_url_of(page: &str, session_id: &str, org_id: &str) -> (r: String)
    ensures
        r@ == page_url(page@, session_id@, org_id@),
{
    let mut r = page.to_owned();
    r.append("?session=");
    r.append(session_id);
    r.append("&org=");
    r.append(org_id);
    r
}

/// What a driver who opened the session `s` is told.
pub open spec fn describes(r: CreateSessionResponse, s: SessionView) -> bool {
    &&& r.session_id@ == s.session_id
    &&& r.org_id@ == s.org_id
    &&& r.driver_token@ == s.driver_token
    &&& r.tech_token@ == s.tech_token
    &&& r.tech_url@ == page_url("/tech.html"@, s.session_id, s.org_id)
    &&& r.driver_url@ == page_url("/index.html"@, s.session_id, s.org_id)
}

/// Opens a session for an organisation, under an id made at the given
/// millisecond and with tokens made at the given nanoseconds. A session that
/// has the id already gives way.
pub fn open_session(
    sessions: &mut Table<SessionState>,
    org_id: String,
    id_millis: u128,
    driver_nanos: u128,
    tech_nanos: u128,
    now: u64,
) -> (r: CreateSessionResponse)
    requires
        old(sessions).wf(),
    ensures
        final(sessions).wf(),
        ({
            let s = fresh_session(
                session_id_text(id_millis as nat),
                org_id@,
                token_text(driver_nanos),
                token_text(tech_nanos),
                now,
            );
            &&& describes(r, s)
            &&& final(sessions)@ == old(sessions)@.insert(s.session_id, s)
        }),
{
    let session_id = session_id_at(id_millis);
    let session = default_session(
        session_id.clone(),
        org_id.clone(),
        driver_nanos,
        tech_nanos,
        now,
    );
    let response = CreateSessionResponse {
        driver_token: session.driver_token.clone(),
        tech_token: session.tech_token.clone(),
        tech_url: page_url_of("/tech.html", session_id.as_str(), org_id.as_str()),
        driver_url: page_url_of("/index.html", session_id.as_str(), org_id.as_str()),
        session_id: session_id.clone(),
        org_id,
    };
    sessions.insert(session_id, session);
    response
}

/// Opens a session for the organisation that the driver named, or for
/// `unknown`.
pub fn create_session(
    sessions: &mut Table<SessionState>,
    org_id: Option<String>,
    id_millis: u128,
    driver_nanos: u128,
    tech_nanos: u128,
    now: u64,
) -> (r: CreateSessionResponse)
    requires
        old(sessions).wf(),
    ensures
        final(sessions).wf(),
        ({
            let s = fresh_session(
                session_id_text(id_millis as nat),
                org_key(setting_or(org_id, "unknown"@)),
                token_text(driver_nanos),
                token_text(tech_nanos),
                now,
            );
            &&& describes(r, s)
            &&& final(sessions)@ == old(sessions)@.insert(s.session_id, s)
        }),
        ascii_key_known(setting_or(org_id, "unknown"@)),
{
    let named = or_default(org_id, "unknown");
    let key = org_key_of(named.as_str());
    open_session(sessions, key, id_millis, driver_nanos, tech_nanos, now)
}

/// A session that was opened admits its driver token and its technician token,
/// and refuses every other.
pub proof fn opened_session_admits_its_tokens(
    m: Map<Seq<char>, SessionView>,
    s: SessionView,
    token: Seq<char>,
)
    ensures
        driver_refusal(m.insert(s.session_id, s), s.session_id, token) is None <==> token
            == s.driver_token,
        update_refusal(m.insert(s.session_id, s), s.session_id, token) is None <==> token
            == s.tech_token,
{
}

/// A socket's place in a session.
#[derive(Debug)]
pub struct SocketJoin {
    /// The session's id.
    pub session_id: String,
    /// Whether the session was begun for it.
    pub created: bool,
}

/// What comes of a socket that asks for the session `id`: where there is none,
/// the session `begun` begins; otherwise nothing changes.
pub open spec fn socket_joins(
    r: SocketJoin,
    before: Map<Seq<char>, SessionView>,
    after: Map<Seq<char>, SessionView>,
    id: Seq<char>,
    begun: SessionView,
) -> bool {
    &&& r.session_id@ == id
    &&& r.created == !before.contains_key(id)
    &&& after == if r.created {
        before.insert(id, begun)
    } else {
        before
    }
}

/// Finds the session that a socket asks for, or begins it. A socket that names
/// no session or no organisation gets the defaults.
pub fn ws_route(
    sessions: &mut Table<SessionState>,
    session: Option<String>,
    org: Option<String>,
    driver_nanos: u128,
    tech_nanos: u128,
    now: u64,
) -> (r: SocketJoin)
    requires
        old(sessions).wf(),
    ensures
        final(sessions).wf(),
        socket_joins(
            r,
            old(sessions)@,
            final(sessions)@,
            setting_or(session, "DL-default"@),
            fresh_session(
                setting_or(session, "DL-default"@),
                setting_or(org, "unknown"@),
                token_text(driver_nanos),
                token_text(tech_nanos),
                now,
            ),
        ),
{
    let session_id = or_default(session, "DL-default");
    let org_id = or_default(org, "unknown");
    if sessions.contains_key(session_id.as_str()) {
        SocketJoin { session_id, created: false }
    } else {
        let begun = default_session(session_id.clone(), org_id, driver_nanos, tech_nanos, now);
        sessions.insert(session_id.clone(), begun);
        SocketJoin { session_id, created: true }
    }
}

/// A session as it is shown to the world: all of it but its two tokens.
#[derive(Debug)]
pub struct PublicSession {
    /// Its id.
    pub session_id: String,
    /// The organisation that the truck belongs to.
    pub org_id: String,
    /// How the session stands.
    pub status: String,
    /// What the driver is told to do.
    pub command: String,
    /// Whether the driver is to acknowledge.
    pub requires_ack: bool,
    /// Whether the driver has acknowledged.
    pub customer_ack: bool,
    /// What the driver answered.
    pub customer_message: String,
    /// How urgent the command is.
    pub priority: String,
    /// Whether the command is shown on top of everything.
    pub show_modal: bool,
    /// Whether the diagnostic adapter is connected.
    pub nexiq_connected: bool,
    /// Which adapter it is.
    pub adapter_name: String,
    /// The faults that the truck reported.
    pub fault_codes: Vec<FaultCode>,
    /// What is known of the truck.
    pub truck_info: Option<TruckInfo>,
    /// Its latest readings.
    pub live_data: Option<LiveData>,
    /// Whether the driver has asked for service.
    pub service_requested: bool,
    /// When, in seconds, in decimal.
    pub service_request_time: String,
    /// What service was asked for.
    pub service_type: String,
    /// Where the tablet's tunnel is reached.
    pub tablet_ws_url: String,
    /// Where the remote desktop is reached.
    pub guac_url: String,
    /// What happened, oldest first.
    pub event_log: Vec<EventEntry>,
    /// The organisations whose technicians have joined.
    pub connected_techs: Vec<String>,
    /// When anything happened last, in seconds.
    pub last_activity: u64,
}

/// The contents of a [`PublicSession`].
#[verifier::ext_equal]
pub struct PublicView {
    /// Its id.
    pub session_id: Seq<char>,
    /// The organisation that the truck belongs to.
    pub org_id: Seq<char>,
    /// How the session stands.
    pub status: Seq<char>,
    /// What the driver is told to do.
    pub command: Seq<char>,
    /// Whether the driver is to acknowledge.
    pub requires_ack: bool,
    /// Whether the driver has acknowledged.
    pub customer_ack: bool,
    /// What the driver answered.
    pub customer_message: Seq<char>,
    /// How urgent the command is.
    pub priority: Seq<char>,
    /// Whether the command is shown on top of everything.
    pub show_modal: bool,
    /// Whether the diagnostic adapter is connected.
    pub nexiq_connected: bool,
    /// Which adapter it is.
    pub adapter_name: Seq<char>,
    /// The faults that the truck reported.
    pub fault_codes: Seq<FaultView>,
    /// What is known of the truck.
    pub truck_info: Option<TruckView>,
    /// Its latest readings.
    pub live_data: Option<LiveData>,
    /// Whether the driver has asked for service.
    pub service_requested: bool,
    /// When.
    pub service_request_time: Seq<char>,
    /// What service was asked for.
    pub service_type: Seq<char>,
    /// Where the tablet's tunnel is reached.
    pub tablet_ws_url: Seq<char>,
    /// Where the remote desktop is reached.
    pub guac_url: Seq<char>,
    /// What happened, oldest first.
    pub event_log: Seq<EventView>,
    /// The organisations whose technicians have joined.
    pub connected_techs: Seq<Seq<char>>,
    /// When anything happened last.
    pub last_activity: u64,
}

impl View for PublicSession {
    type V = PublicView;

    open spec fn view(&self) -> PublicView {
        PublicView {
            session_id: self.session_id@,
            org_id: self.org_id@,
            status: self.status@,
            command: self.command@,
            requires_ack: self.requires_ack,
            customer_ack: self.customer_ack,
            customer_message: self.customer_message@,
            priority: self.priority@,
            show_modal: self.show_modal,
            nexiq_connected: self.nexiq_connected,
            adapter_name: self.adapter_name@,
            fault_codes: fault_views(self.fault_codes@),
            truck_info: truck_view(self.truck_info),
            live_data: self.live_data,
            service_requested: self.service_requested,
            service_request_time: self.service_request_time@,
            service_type: self.service_type@,
            tablet_ws_url: self.tablet_ws_url@,
            guac_url: self.guac_url@,
            event_log: event_views(self.event_log@),
            connected_techs: texts(self.connected_techs@),
            last_activity: self.last_activity,
        }
    }
}

/// A session as it is shown to the world.
pub open spec fn published(s: SessionView) -> PublicView {
    PublicView {
        session_id: s.session_id,
        org_id: s.org_id,
        status: s.status,
        command: s.command,
        requires_ack: s.requires_ack,
        customer_ack: s.customer_ack,
        customer_message: s.customer_message,
        priority: s.priority,
        show_modal: s.show_modal,
        nexiq_connected: s.nexiq_connected,
        adapter_name: s.adapter_name,
        fault_codes: s.fault_codes,
        truck_info: s.truck_info,
        live_data: s.live_data,
        service_requested: s.service_requested,
        service_request_time: s.service_request_time,
        service_type: s.service_type,
        tablet_ws_url: s.tablet_ws_url,
        guac_url: s.guac_url,
        event_log: s.event_log,
        connected_techs: s.connected_techs,
        last_activity: s.last_activity,
    }
}

/// What is shown of a session tells nothing of its tokens.
pub proof fn publication_hides_the_tokens(
    s: SessionView,
    driver_token: Seq<char>,
    tech_token: Seq<char>,
)
    ensures
        published(SessionView { driver_token, tech_token, ..s }) == published(s),
{
}

fn copy_faults(v: &Vec<FaultCode>) -> (r: Vec<FaultCode>)
    ensures
        fault_views(r@) == fault_views(v@),
{
    let mut r: Vec<FaultCode> = Vec::new();
    let mut i: usize = 0;
    while i < v.len()
        invariant
            i <= v@.len(),
            fault_views(r@) =~= fault_views(v@).take(i as int),
        decreases v@.len() - i,
    {
        let ghost before = fault_views(r@);
        r.push(v[i].clone());
        assert(fault_views(r@) =~= before.push(v@[i as int]@));
        i += 1;
    }
    assert(fault_views(v@).take(v@.len() as int) =~= fault_views(v@));
    r
}

fn copy_events(v: &Vec<EventEntry>) -> (r: Vec<EventEntry>)
    ensures
        event_views(r@) == event_views(v@),
{
    let mut r: Vec<EventEntry> = Vec::new();
    let mut i: usize = 0;
    while i < v.len()
        invariant
            i <= v@.len(),
            event_views(r@) =~= event_views(v@).take(i as int),
        decreases v@.len() - i,
    {
        let ghost before = event_views(r@);
        r.push(v[i].clone());
        assert(event_views(r@) =~= before.push(v@[i as int]@));
        i += 1;
    }
    assert(event_views(v@).take(v@.len() as int) =~= event_views(v@));
    r
}

fn copy_texts(v: &Vec<String>) -> (r: Vec<String>)
    ensures
        texts(r@) == texts(v@),
{
    let mut r: Vec<String> = Vec::new();
    let mut i: usize = 0;
    while i < v.len()
        invariant
            i <= v@.len(),
            texts(r@) =~= texts(v@).take(i as int),
        decreases v@.len() - i,
    {
        let ghost before = texts(r@);
        r.push(v[i].clone());
        assert(texts(r@) =~= before.push(v@[i as int]@));
        i += 1;
    }
    assert(texts(v@).take(v@.len() as int) =~= texts(v@));
    r
}

/// A session as it is shown to the world.
pub fn publish(s: &SessionState) -> (r: PublicSession)
    ensures
        r@ == published(s@),
{
    PublicSession {
        session_id: s.session_id.clone(),
        org_id: s.org_id.clone(),
        status: s.status.clone(),
        command: s.command.clone(),
        requires_ack: s.requires_ack,
        customer_ack: s.customer_ack,
        customer_message: s.customer_message.clone(),
        priority: s.priority.clone(),
        show_modal: s.show_modal,
        nexiq_connected: s.nexiq_connected,
        adapter_name: s.adapter_name.clone(),
        fault_codes: copy_faults(&s.fault_codes),
        truck_info: copy_truck(&s.truck_info),
        live_data: s.live_data,
        service_requested: s.service_requested,
        service_request_time: s.service_request_time.clone(),
        service_type: s.service_type.clone(),
        tablet_ws_url: s.tablet_ws_url.clone(),
        guac_url: s.guac_url.clone(),
        event_log: copy_events(&s.event_log),
        connected_techs: copy_texts(&s.connected_techs),
        last_activity: s.last_activity,
    }
}

/// Shows a session.
pub fn get_session(sessions: &Table<SessionState>, id: &str) -> (r: Result<PublicSession, Reply>)
    requires
        sessions.wf(),
    ensures
        match r {
            Ok(p) => sessions@.contains_key(id@) && p@ == published(sessions@[id@]),
            Err(e) => !sessions@.contains_key(id@) && e@ == refused(
                Status::NotFound,
                "Session not found"@,
            ),
        },
{
    match sessions.get(id) {
        Some(s) => Ok(publish(s)),
        None => Err(refuse(Status::NotFound, "Session not found")),
    }
}

/// What a tablet needs to register with a session.
#[derive(Debug)]
pub struct TabletInfo {
    /// The session's id.
    pub session_id: String,
    /// The session's driver token.
    pub driver_token: String,
    /// The organisation.
    pub org_id: String,
}

/// Whether a tablet is told of the session `s`.
pub open spec fn leads_to(t: TabletInfo, s: SessionView) -> bool {
    &&& t.session_id@ == s.session_id
    &&& t.driver_token@ == s.driver_token
    &&& t.org_id@ == s.org_id
}

/// Row `i` is the organisation's most recently active session, the last such
/// row where several were active at the same second.
pub open spec fn is_latest(
    rows: Seq<(Seq<char>, SessionView)>,
    org_id: Seq<char>,
    i: int,
) -> bool {
    &&& 0 <= i < rows.len()
    &&& rows[i].1.org_id == org_id
    &&& forall|j: int|
        0 <= j < rows.len() && (#[trigger] rows[j]).1.org_id == org_id ==> rows[j].1.last_activity
            < rows[i].1.last_activity || (rows[j].1.last_activity == rows[i].1.last_activity && j
            <= i)
}

/// Finds the organisation's most recently active session.
pub fn tablet_info(sessions: &Table<SessionState>, org_id: &str) -> (r: Result<TabletInfo, Reply>)
    ensures
        match r {
            Ok(t) => exists|i: int| #[trigger]
                is_latest(sessions.rows(), org_id@, i) && leads_to(t, sessions.rows()[i].1),
            Err(e) => {
                &&& forall|i: int|
                    0 <= i < sessions.rows().len() ==> (#[trigger] sessions.rows()[i]).1.org_id
                        != org_id@
                &&& e@ == refused(Status::NotFound, "No active session for this org"@)
            },
        },
{
    let ghost rows = sessions.rows();
    let n: usize = sessions.len();
    let mut best: Option<usize> = None;
    let mut i: usize = 0;
    while i < n
        invariant
            i <= n == rows.len(),
            rows == sessions.rows(),
            match best {
                Some(b) => is_latest(rows.take(i as int), org_id@, b as int),
                None => forall|j: int| 0 <= j < i ==> (#[trigger] rows[j]).1.org_id != org_id@,
            },
        decreases n - i,
    {
        let s = sessions.value_at(i);
        let ghost before = rows.take(i as int);
        let ghost longer = rows.take(i + 1);
        assert forall|j: int| 0 <= j < i implies longer[j] == before[j] by {}
        if same(s.org_id.as_str(), org_id) {
            let newer = match best {
                Some(b) => sessions.value_at(b).last_activity <= s.last_activity,
                None => true,
            };
            if newer {
                best = Some(i);
                assert(is_latest(longer, org_id@, i as int)) by {
                    assert forall|j: int|
                        0 <= j < longer.len() && (#[trigger] longer[j]).1.org_id
                            == org_id@ implies longer[j].1.last_activity
                        < longer[i as int].1.last_activity || (longer[j].1.last_activity
                        == longer[i as int].1.last_activity && j <= i) by {
                        if j < i {
                            assert(longer[j] == before[j]);
                            assert(rows[j] == before[j]);
                        }
                    }
                }
            }
        }
        i += 1;
    }
    assert(rows.take(n as int) =~= rows);
    match best {
        Some(b) => {
            let s = sessions.value_at(b);
            Ok(
                TabletInfo {
                    session_id: s.session_id.clone(),
                    driver_token: s.driver_token.clone(),
                    org_id: s.org_id.clone(),
                },
            )
        },
        None => Err(refuse(Status::NotFound, "No active session for this org")),
    }
}

/// Whether a session has been active since the idle limit.
pub open spec fn session_live(now: u64) -> spec_fn(SessionView) -> bool {
    |s: SessionView| s.last_activity >= now - SESSION_IDLE_LIMIT
}

/// The ids of the rows that have not been active since the idle limit.
pub open spec fn idle_ids(rows: Seq<(Seq<char>, SessionView)>, now: u64) -> Seq<Seq<char>> {
    rows.filter(|r: (Seq<char>, SessionView)| !session_live(now)(r.1)).map_values(
        |r: (Seq<char>, SessionView)| r.1.session_id,
    )
}

/// Whether a session has been active since the idle limit.
fn is_session_live(s: &SessionState, now: u64) -> (r: bool)
    requires
        now >= SESSION_IDLE_LIMIT,
    ensures
        r == session_live(now)(s@),
{
    s.last_activity >= now - SESSION_IDLE_LIMIT
}

fn list_idle(sessions: &Table<SessionState>, now: u64) -> (r: Vec<String>)
    requires
        now >= SESSION_IDLE_LIMIT,
    ensures
        texts(r@) == idle_ids(sessions.rows(), now),
{
    let ghost rows = sessions.rows();
    let ghost idle = |r: (Seq<char>, SessionView)| !session_live(now)(r.1);
    let n: usize = sessions.len();
    let mut list: Vec<String> = Vec::new();
    let mut i: usize = 0;
    proof {
        rows.take(0).lemma_filter_len(idle);
    }
    assert(texts(list@) =~= idle_ids(rows.take(0), now));
    while i < n
        invariant
            i <= n == rows.len(),
            now >= SESSION_IDLE_LIMIT,
            rows == sessions.rows(),
            idle == (|r: (Seq<char>, SessionView)| !session_live(now)(r.1)),
            texts(list@) == idle_ids(rows.take(i as int), now),
        decreases n - i,
    {
        let ghost before = texts(list@);
        assert(rows.take(i + 1) =~= rows.take(i as int).push(rows[i as int]));
        proof {
            rows.take(i as int).lemma_filter_push(rows[i as int], idle);
        }
        let s = sessions.value_at(i);
        if !is_session_live(s, now) {
            list.push(s.session_id.clone());
            assert(texts(list@) =~= before.push(s@.session_id));
            assert(idle_ids(rows.take(i + 1), now) =~= before.push(rows[i as int].1.session_id));
        }
        i += 1;
    }
    assert(rows.take(n as int) =~= rows);
    list
}

/// Where every session stands under its own id, taking out the ids of the idle
/// rows leaves exactly the sessions that have been active since the idle limit.
pub proof fn expiry_leaves_the_live(rows: Seq<(Seq<char>, SessionView)>, now: u64)
    requires
        distinct_keys(rows),
        keyed(rows_map(rows)),
    ensures
        rows_map(rows).remove_keys(idle_ids(rows, now).to_set()) == kept(
            rows_map(rows),
            session_live(now),
        ),
{
    let m = rows_map(rows);
    let idle = |r: (Seq<char>, SessionView)| !session_live(now)(r.1);
    let picked = rows.filter(idle);
    let ids = idle_ids(rows, now);
    assert forall|k: Seq<char>| #[trigger] m.contains_key(k) implies ids.contains(k)
        == !session_live(now)(m[k]) by {
        let i = row_of(rows, k);
        assert(0 <= i < rows.len() && rows[i].0 == k);
        lemma_row(rows, i);
        if !session_live(now)(m[k]) {
            rows.lemma_filter_contains(idle, i);
            let j = choose|j: int| 0 <= j < picked.len() && picked[j] == rows[i];
            assert(ids[j] == k);
        }
        if ids.contains(k) {
            let j = choose|j: int| 0 <= j < ids.len() && ids[j] == k;
            assert(picked[j].1.session_id == k);
            rows.lemma_filter_pred(idle, j);
            rows.lemma_filter_contains_rev(idle, picked[j]);
            let h = choose|h: int| 0 <= h < rows.len() && rows[h] == picked[j];
            lemma_row(rows, h);
            assert(m.contains_key(rows[h].0));
            assert(rows[h].0 == k);
        }
    }
    assert(m.remove_keys(ids.to_set()) =~= kept(m, session_live(now)));
}

/// Taking out idle sessions keeps every session under its id.
pub proof fn expiry_keeps_keys(m: Map<Seq<char>, SessionView>, ids: Set<Seq<char>>)
    requires
        keyed(m),
    ensures
        keyed(m.remove_keys(ids)),
{
}

/// A session that was active at `then` stays for the idle limit from then, and
/// no longer.
pub proof fn activity_keeps_a_session(s: SessionView, then: u64, later: u64)
    requires
        s.last_activity == then,
        then <= later,
    ensures
        session_live(later)(s) == (later - then <= SESSION_IDLE_LIMIT),
{
}

/// Takes out the sessions that have not been active since the idle limit, and
/// gives their ids.
pub fn expire_sessions(sessions: &mut Table<SessionState>, now: u64) -> (r: Vec<String>)
    requires
        old(sessions).wf(),
        now >= SESSION_IDLE_LIMIT,
    ensures
        final(sessions).wf(),
        texts(r@) == idle_ids(old(sessions).rows(), now),
        final(sessions)@ == old(sessions)@.remove_keys(texts(r@).to_set()),
        keyed(old(sessions)@) ==> final(sessions)@ == kept(old(sessions)@, session_live(now)),
{
    let idle = list_idle(sessions, now);
    let n: usize = idle.len();
    let ghost m = sessions@;
    let mut i: usize = 0;
    assert(texts(idle@).take(0).to_set() =~= Set::<Seq<char>>::empty());
    assert(m.remove_keys(texts(idle@).take(0).to_set()) =~= m);
    while i < n
        invariant
            i <= n == idle@.len(),
            sessions.wf(),
            sessions@ == m.remove_keys(texts(idle@).take(i as int).to_set()),
        decreases n - i,
    {
        let ghost some = texts(idle@).take(i as int);
        let ghost more = texts(idle@).take(i + 1);
        sessions.remove(idle[i].as_str());
        assert(more =~= some.push(idle@[i as int]@));
        assert(more.to_set() =~= some.to_set().insert(idle@[i as int]@)) by {
            assert(more[i as int] == idle@[i as int]@);
            assert forall|k: Seq<char>| some.contains(k) implies more.contains(k) by {
                let j = choose|j: int| 0 <= j < some.len() && some[j] == k;
                assert(more[j] == k);
            }
        }
        assert(sessions@ =~= m.remove_keys(more.to_set()));
        i += 1;
    }
    assert(texts(idle@).take(n as int) =~= texts(idle@));
    proof {
        if keyed(m) {
            expiry_leaves_the_live(old(sessions).rows(), now);
        }
    }
    idle
}

} // verus!
