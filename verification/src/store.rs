//! What the database keeps of sessions and organisations, and how it is read
//! back. Faults, truck, readings and log are kept as JSON documents; writing and
//! reading those documents is left to the caller.

use crate::json::{texts_from_json, texts_to_json};
#[allow(unused_imports)]
use crate::json::{read_texts, written_texts};
use crate::model::{EventEntry, FaultCode, LiveData, Org, SessionState, TruckInfo};
#[allow(unused_imports)]
use crate::model::{event_views, fault_views, truck_view, EventView, FaultView, OrgView, SessionView};
#[allow(unused_imports)]
use crate::numerals::decimal;
use crate::numerals::to_decimal;
use crate::config::or_default;
#[allow(unused_imports)]
use crate::config::setting_or;
use crate::rate_limit::BUCKET_LIFE;
use crate::registry::SESSION_IDLE_LIMIT;
#[allow(unused_imports)]
use crate::registry::keyed;
#[allow(unused_imports)]
use crate::table::lemma_filter_all;
use crate::table::Table;
use crate::text::{same, split, text_after, text_before, trim};
#[allow(unused_imports)]
use crate::text::{after, before, pieces, texts, trimmed};
use vstd::prelude::*;
use vstd::string::*;

verus! {

/// How many sessions of the history are shown at most, the newest first.
pub const HISTORY_LIMIT: i64 = 500;

/// A session as a row of the database.
#[derive(Debug)]
pub struct SessionRow {
    /// Its id.
    pub session_id: String,
    /// The organisation that the truck belongs to.
    pub org_id: String,
    /// The driver's token.
    pub driver_token: String,
    /// The technician's token.
    pub tech_token: String,
    /// How the session stands.
    pub status: String,
    /// What the driver is told to do.
    pub command: String,
    /// Whether the driver is to acknowledge.
    pub requires_ack: i32,
    /// Whether the driver has acknowledged.
    pub customer_ack: i32,
    /// What the driver answered.
    pub customer_message: String,
    /// How urgent the command is.
    pub priority: String,
    /// Whether the command is shown on top of everything.
    pub show_modal: i32,
    /// Whether the diagnostic adapter is connected.
    pub nexiq_connected: i32,
    /// Which adapter it is.
    pub adapter_name: String,
    /// The faults, as a JSON array.
    pub fault_codes: String,
    /// The truck, as a JSON object.
    pub truck_info: Option<String>,
    /// The readings, as a JSON object.
    pub live_data: Option<String>,
    /// Whether the driver has asked for service.
    pub service_requested: i32,
    /// When, in seconds, in decimal.
    pub service_request_time: String,
    /// What service was asked for.
    pub service_type: String,
    /// Where the tablet's tunnel is reached.
    pub tablet_ws_url: String,
    /// Where the remote desktop is reached.
    pub guac_url: String,
    /// The log, as a JSON array.
    pub event_log: String,
    /// The organisations that have joined, as a JSON array.
    pub connected_techs: String,
    /// When the row was written, in seconds.
    pub created_at: i64,
    /// When anything happened last, in seconds.
    pub last_activity: i64,
}

/// The JSON documents of a session. One that is missing could not be written, or
/// there was nothing to write.
#[derive(Debug)]
pub struct WrittenDocs {
    /// The faults.
    pub fault_codes: Option<String>,
    /// The truck.
    pub truck_info: Option<String>,
    /// The readings.
    pub live_data: Option<String>,
    /// The log.
    pub event_log: Option<String>,
}

/// What the JSON documents of a row hold. One that is missing could not be read,
/// or was not there.
#[derive(Debug)]
pub struct ReadDocs {
    /// The faults.
    pub fault_codes: Option<Vec<FaultCode>>,
    /// The truck.
    pub truck_info: Option<TruckInfo>,
    /// The readings.
    pub live_data: Option<LiveData>,
    /// The log.
    pub event_log: Option<Vec<EventEntry>>,
}

/// A truth value as the database keeps it.
pub open spec fn flag(b: bool) -> i32 {
    if b {
        1
    } else {
        0
    }
}

fn flag_of(b: bool) -> (r: i32)
    ensures
        r == flag(b),
{
    if b {
        1
    } else {
        0
    }
}

/// The contents of a text that may be missing.
pub open spec fn text_view(t: Option<String>) -> Option<Seq<char>> {
    match t {
        Some(t) => Some(t@),
        None => None,
    }
}

/// Whether `row` is what the session `s` is stored as at `now`.
pub open spec fn stored_as(row: SessionRow, s: SessionView, docs: WrittenDocs, now: u64) -> bool {
    &&& row.session_id@ == s.session_id
    &&& row.org_id@ == s.org_id
    &&& row.driver_token@ == s.driver_token
    &&& row.tech_token@ == s.tech_token
    &&& row.status@ == s.status
    &&& row.command@ == s.command
    &&& row.requires_ack == flag(s.requires_ack)
    &&& row.customer_ack == flag(s.customer_ack)
    &&& row.customer_message@ == s.customer_message
    &&& row.priority@ == s.priority
    &&& row.show_modal == flag(s.show_modal)
    &&& row.nexiq_connected == flag(s.nexiq_connected)
    &&& row.adapter_name@ == s.adapter_name
    &&& row.fault_codes@ == setting_or(docs.fault_codes, seq![])
    &&& text_view(row.truck_info) == text_view(docs.truck_info)
    &&& text_view(row.live_data) == text_view(docs.live_data)
    &&& row.service_requested == flag(s.service_requested)
    &&& row.service_request_time@ == s.service_request_time
    &&& row.service_type@ == s.service_type
    &&& row.tablet_ws_url@ == s.tablet_ws_url
    &&& row.guac_url@ == s.guac_url
    &&& row.event_log@ == setting_or(docs.event_log, seq![])
    &&& row.connected_techs@ == written_texts(s.connected_techs)
    &&& read_texts(row.connected_techs@) == Some(s.connected_techs)
    &&& row.created_at == now as i64
    &&& row.last_activity == s.last_activity as i64
}

fn text_or_empty(t: Option<String>) -> (r: String)
    ensures
        r@ == setting_or(t, seq![]),
{
    match t {
        Some(t) => t,
        None => String::new(),
    }
}

/// The row that a session is stored as.
pub fn save_session(s: &SessionState, docs: WrittenDocs, now: u64) -> (r: SessionRow)
    ensures
        stored_as(r, s@, docs, now),
{
    SessionRow {
        session_id: s.session_id.clone(),
        org_id: s.org_id.clone(),
        driver_token: s.driver_token.clone(),
        tech_token: s.tech_token.clone(),
        status: s.status.clone(),
        command: s.command.clone(),
        requires_ack: flag_of(s.requires_ack),
        customer_ack: flag_of(s.customer_ack),
        customer_message: s.customer_message.clone(),
        priority: s.priority.clone(),
        show_modal: flag_of(s.show_modal),
        nexiq_connected: flag_of(s.nexiq_connected),
        adapter_name: s.adapter_name.clone(),
        fault_codes: text_or_empty(docs.fault_codes),
        truck_info: docs.truck_info,
        live_data: docs.live_data,
        service_requested: flag_of(s.service_requested),
        service_request_time: s.service_request_time.clone(),
        service_type: s.service_type.clone(),
        tablet_ws_url: s.tablet_ws_url.clone(),
        guac_url: s.guac_url.clone(),
        event_log: text_or_empty(docs.event_log),
        connected_techs: texts_to_json(&s.connected_techs),
        created_at: now as i64,
        last_activity: s.last_activity as i64,
    }
}

/// The session that a row holds, with the organisations that have joined as they
/// were read. A document that could not be read counts as empty, or as missing
/// where it may be.
pub open spec fn restored_with(
    row: SessionRow,
    docs: ReadDocs,
    connected_techs: Seq<Seq<char>>,
) -> SessionView {
    SessionView {
        session_id: row.session_id@,
        org_id: row.org_id@,
        driver_token: row.driver_token@,
        tech_token: row.tech_token@,
        status: row.status@,
        command: row.command@,
        requires_ack: row.requires_ack != 0,
        customer_ack: row.customer_ack != 0,
        customer_message: row.customer_message@,
        priority: row.priority@,
        show_modal: row.show_modal != 0,
        nexiq_connected: row.nexiq_connected != 0,
        adapter_name: row.adapter_name@,
        fault_codes: match docs.fault_codes {
            Some(f) => fault_views(f@),
            None => seq![],
        },
        truck_info: truck_view(docs.truck_info),
        live_data: docs.live_data,
        service_requested: row.service_requested != 0,
        service_request_time: row.service_request_time@,
        service_type: row.service_type@,
        tablet_ws_url: row.tablet_ws_url@,
        guac_url: row.guac_url@,
        event_log: match docs.event_log {
            Some(e) => event_views(e@),
            None => seq![],
        },
        connected_techs,
        last_activity: row.last_activity as u64,
    }
}

/// The session that a row holds. Where the organisations that have joined cannot
/// be read, there are none.
pub open spec fn restored(row: SessionRow, docs: ReadDocs) -> SessionView {
    restored_with(
        row,
        docs,
        match read_texts(row.connected_techs@) {
            Some(list) => list,
            None => seq![],
        },
    )
}

/// The session that a row holds, with the organisations that have joined as they
/// were read.
pub fn session_from_parts(
    row: SessionRow,
    docs: ReadDocs,
    connected_techs: Vec<String>,
) -> (r: SessionState)
    ensures
        r@ == restored_with(row, docs, texts(connected_techs@)),
{
    let fault_codes: Vec<FaultCode> = match docs.fault_codes {
        Some(f) => f,
        None => {
            let none: Vec<FaultCode> = Vec::new();
            assert(fault_views(none@) =~= seq![]);
            none
        },
    };
    let event_log: Vec<EventEntry> = match docs.event_log {
        Some(e) => e,
        None => {
            let none: Vec<EventEntry> = Vec::new();
            assert(event_views(none@) =~= seq![]);
            none
        },
    };
    SessionState {
        session_id: row.session_id,
        org_id: row.org_id,
        driver_token: row.driver_token,
        tech_token: row.tech_token,
        status: row.status,
        command: row.command,
        requires_ack: row.requires_ack != 0,
        customer_ack: row.customer_ack != 0,
        customer_message: row.customer_message,
        priority: row.priority,
        show_modal: row.show_modal != 0,
        nexiq_connected: row.nexiq_connected != 0,
        adapter_name: row.adapter_name,
        fault_codes,
        truck_info: docs.truck_info,
        live_data: docs.live_data,
        service_requested: row.service_requested != 0,
        service_request_time: row.service_request_time,
        service_type: row.service_type,
        tablet_ws_url: row.tablet_ws_url,
        guac_url: row.guac_url,
        event_log,
        connected_techs,
        last_activity: row.last_activity as u64,
    }
}

/// The session that a row holds.
pub fn session_from_row(row: SessionRow, docs: ReadDocs) -> (r: SessionState)
    ensures
        r@ == restored(row, docs),
{
    let connected_techs = texts_from_json(row.connected_techs.as_str());
    session_from_parts(row, docs, connected_techs)
}

/// What was read from the documents is what the session `s` holds.
pub open spec fn docs_hold(docs: ReadDocs, s: SessionView) -> bool {
    &&& docs.fault_codes matches Some(f) && fault_views(f@) == s.fault_codes
    &&& truck_view(docs.truck_info) == s.truck_info
    &&& docs.live_data == s.live_data
    &&& docs.event_log matches Some(e) && event_views(e@) == s.event_log
}

/// A session that was stored is read back as it was, where its documents are.
pub proof fn stored_session_reads_back(
    s: SessionView,
    row: SessionRow,
    written: WrittenDocs,
    read: ReadDocs,
    now: u64,
)
    requires
        stored_as(row, s, written, now),
        docs_hold(read, s),
    ensures
        restored(row, read) == s,
{
    let t = s.last_activity;
    assert((t as i64) as u64 == t) by (bit_vector);
}

/// A row of the database with what its documents hold.
#[derive(Debug)]
pub struct StoredSession {
    /// The row.
    pub row: SessionRow,
    /// What its documents hold.
    pub docs: ReadDocs,
}

/// The sessions that rows hold, each under its id. Of rows with one id the last
/// counts.
pub open spec fn sessions_in(rows: Seq<StoredSession>) -> Map<Seq<char>, SessionView>
    decreases rows.len(),
{
    if rows.len() == 0 {
        Map::empty()
    } else {
        sessions_in(rows.drop_last()).insert(
            rows.last().row.session_id@,
            restored(rows.last().row, rows.last().docs),
        )
    }
}

/// Sessions with different ids that were stored are read back as they were, each
/// under its id, and nothing else with them.
pub proof fn stored_sessions_read_back(
    rows: Seq<StoredSession>,
    sessions: Seq<SessionView>,
    written: Seq<WrittenDocs>,
    times: Seq<u64>,
)
    requires
        rows.len() == sessions.len() == written.len() == times.len(),
        forall|i: int|
            0 <= i < rows.len() ==> stored_as(
                (#[trigger] rows[i]).row,
                sessions[i],
                written[i],
                times[i],
            ) && docs_hold(rows[i].docs, sessions[i]),
        forall|i: int, j: int|
            0 <= i < j < sessions.len() ==> (#[trigger] sessions[i]).session_id != (
            #[trigger] sessions[j]).session_id,
    ensures
        forall|i: int|
            0 <= i < sessions.len() ==> sessions_in(rows).contains_key(
                (#[trigger] sessions[i]).session_id,
            ) && sessions_in(rows)[sessions[i].session_id] == sessions[i],
        forall|k: Seq<char>| #[trigger]
            sessions_in(rows).contains_key(k) ==> exists|i: int|
                0 <= i < sessions.len() && (#[trigger] sessions[i]).session_id == k,
    decreases rows.len(),
{
    if rows.len() > 0 {
        let n = rows.len() - 1;
        let fewer = sessions.drop_last();
        assert forall|i: int| 0 <= i < n implies stored_as(
            (#[trigger] rows.drop_last()[i]).row,
            fewer[i],
            written.drop_last()[i],
            times.drop_last()[i],
        ) && docs_hold(rows.drop_last()[i].docs, fewer[i]) by {
            assert(rows.drop_last()[i] == rows[i]);
        }
        assert forall|i: int, j: int| 0 <= i < j < n implies (#[trigger] fewer[i]).session_id != (
        #[trigger] fewer[j]).session_id by {
            assert(sessions[i].session_id != sessions[j].session_id);
        }
        stored_sessions_read_back(
            rows.drop_last(),
            fewer,
            written.drop_last(),
            times.drop_last(),
        );
        assert(stored_as(rows[n].row, sessions[n], written[n], times[n]));
        stored_session_reads_back(
            sessions[n],
            rows[n].row,
            written[n],
            rows[n].docs,
            times[n],
        );
        assert forall|i: int| 0 <= i < sessions.len() implies sessions_in(rows).contains_key(
            (#[trigger] sessions[i]).session_id,
        ) && sessions_in(rows)[sessions[i].session_id] == sessions[i] by {
            if i < n {
                assert(fewer[i] == sessions[i]);
            }
        }
        assert forall|k: Seq<char>| #[trigger] sessions_in(rows).contains_key(k) implies exists|
            i: int,
        |
            0 <= i < sessions.len() && (#[trigger] sessions[i]).session_id == k by {
            if k == sessions[n].session_id {
                assert(sessions[n].session_id == k);
            } else {
                assert(sessions_in(rows.drop_last()).contains_key(k));
                let i = choose|i: int| 0 <= i < n && (#[trigger] fewer[i]).session_id == k;
                assert(sessions[i].session_id == k);
            }
        }
    }
}

/// Storing one more row puts its session under its id, in place of any that was
/// there, and leaves all others.
pub proof fn row_more_counts(rows: Seq<StoredSession>, x: StoredSession)
    ensures
        sessions_in(rows.push(x)) == sessions_in(rows).insert(
            x.row.session_id@,
            restored(x.row, x.docs),
        ),
{
    assert(rows.push(x).drop_last() =~= rows);
}

/// Of two rows of one session nothing of the earlier one counts.
pub proof fn later_row_counts(rows: Seq<StoredSession>, x: StoredSession, y: StoredSession)
    requires
        x.row.session_id@ == y.row.session_id@,
    ensures
        sessions_in(rows.push(x).push(y)) == sessions_in(rows.push(y)),
{
    row_more_counts(rows, x);
    row_more_counts(rows.push(x), y);
    row_more_counts(rows, y);
    assert(sessions_in(rows.push(x).push(y)) =~= sessions_in(rows.push(y)));
}

/// Whether a row is of another session.
pub open spec fn row_of_other(id: Seq<char>) -> spec_fn(StoredSession) -> bool {
    |x: StoredSession| x.row.session_id@ != id
}

/// The rows after `x` was put among them, in place of any row with its id.
pub open spec fn rows_replacing(rows: Seq<StoredSession>, x: StoredSession) -> Seq<StoredSession> {
    rows.filter(row_of_other(x.row.session_id@)).push(x)
}

proof fn lemma_sessions_without(rows: Seq<StoredSession>, id: Seq<char>)
    ensures
        sessions_in(rows.filter(row_of_other(id))) == sessions_in(rows).remove(id),
    decreases rows.len(),
{
    let other = row_of_other(id);
    if rows.len() == 0 {
        rows.lemma_filter_len(other);
        assert(rows.filter(other) =~= rows);
        assert(sessions_in(rows).remove(id) =~= sessions_in(rows));
    } else {
        let head = rows.drop_last();
        let last = rows.last();
        lemma_sessions_without(head, id);
        head.lemma_filter_push(last, other);
        assert(head.push(last) =~= rows);
        if other(last) {
            row_more_counts(head.filter(other), last);
        }
        assert(sessions_in(rows.filter(other)) =~= sessions_in(rows).remove(id));
    }
}

/// A row that replaces is the only one with its id, and the rows of other
/// sessions stay as they are.
pub proof fn replacing_leaves_one_row(rows: Seq<StoredSession>, x: StoredSession, other: StoredSession)
    ensures
        rows_replacing(rows, x).last() == x,
        forall|i: int|
            0 <= i < rows_replacing(rows, x).len() - 1 ==> (#[trigger] rows_replacing(
                rows,
                x,
            )[i]).row.session_id@ != x.row.session_id@,
        other.row.session_id@ != x.row.session_id@ ==> rows_replacing(rows, x).contains(other)
            == rows.contains(other),
{
    let p = row_of_other(x.row.session_id@);
    let kept_rows = rows.filter(p);
    let all = rows_replacing(rows, x);
    assert forall|i: int| 0 <= i < all.len() - 1 implies (#[trigger] all[i]).row.session_id@
        != x.row.session_id@ by {
        rows.lemma_filter_pred(p, i);
        assert(all[i] == kept_rows[i]);
    }
    if other.row.session_id@ != x.row.session_id@ {
        if rows.contains(other) {
            let i = choose|i: int| 0 <= i < rows.len() && rows[i] == other;
            rows.lemma_filter_contains(p, i);
            let j = choose|j: int| 0 <= j < kept_rows.len() && kept_rows[j] == other;
            assert(all[j] == other);
        }
        if all.contains(other) {
            let j = choose|j: int| 0 <= j < all.len() && all[j] == other;
            assert(kept_rows[j] == other);
            rows.lemma_filter_contains_rev(p, other);
        }
    }
}

/// Storing a session again leaves nothing of its earlier row, and all other
/// sessions as they are.
pub proof fn replacing_leaves_nothing_behind(
    rows: Seq<StoredSession>,
    x: StoredSession,
    y: StoredSession,
)
    requires
        x.row.session_id@ == y.row.session_id@,
    ensures
        sessions_in(rows_replacing(rows, x)) == sessions_in(rows).insert(
            x.row.session_id@,
            restored(x.row, x.docs),
        ),
        rows_replacing(rows_replacing(rows, x), y) == rows_replacing(rows, y),
{
    let id = x.row.session_id@;
    let p = row_of_other(id);
    lemma_sessions_without(rows, id);
    row_more_counts(rows.filter(p), x);
    assert(sessions_in(rows_replacing(rows, x)) =~= sessions_in(rows).insert(
        id,
        restored(x.row, x.docs),
    ));
    let once = rows.filter(p);
    once.lemma_filter_push(x, p);
    assert forall|i: int| 0 <= i < once.len() implies p(#[trigger] once[i]) by {
        rows.lemma_filter_pred(p, i);
    }
    lemma_filter_all(once, p);
}

/// The second after which a stored session must have been active to be loaded.
pub open spec fn cutoff_at(now: u64) -> i64 {
    (now - SESSION_IDLE_LIMIT) as i64
}

/// Whether a row was active after the cutoff.
pub open spec fn active_after(cutoff: i64) -> spec_fn(StoredSession) -> bool {
    |x: StoredSession| x.row.last_activity > cutoff
}

/// Whether a row was active after the cutoff.
pub fn is_active_after(row: &SessionRow, cutoff: i64) -> (r: bool)
    ensures
        r == (row.last_activity > cutoff),
{
    row.last_activity > cutoff
}

/// The sessions that are loaded from rows at `now`: those that were active after
/// the cutoff.
pub open spec fn sessions_loaded(rows: Seq<StoredSession>, now: u64) -> Map<
    Seq<char>,
    SessionView,
> {
    sessions_in(rows.filter(active_after(cutoff_at(now))))
}

/// Reads back the sessions that are not idle from their rows.
pub fn load_sessions_from_db(rows: Vec<StoredSession>, now: u64) -> (r: Table<SessionState>)
    requires
        now >= SESSION_IDLE_LIMIT,
    ensures
        r.wf(),
        r@ == sessions_loaded(rows@, now),
        keyed(r@),
{
    let cutoff: i64 = session_cutoff(now);
    let ghost active = active_after(cutoff);
    let mut table: Table<SessionState> = Table::new();
    proof {
        rows@.take(0).lemma_filter_len(active);
    }
    for stored in it: rows
        invariant
            it.seq() == rows@,
            active == active_after(cutoff),
            table.wf(),
            table@ == sessions_in(rows@.take(it.index() as int).filter(active)),
            keyed(table@),
    {
        let ghost before = rows@.take(it.index() as int);
        assert(rows@.take(it.index() + 1) =~= before.push(stored));
        proof {
            before.lemma_filter_push(stored, active);
        }
        if is_active_after(&stored.row, cutoff) {
            proof {
                row_more_counts(before.filter(active), stored);
            }
            let id = stored.row.session_id.clone();
            table.insert(id, session_from_row(stored.row, stored.docs));
        }
    }
    assert(rows@.take(rows@.len() as int) =~= rows@);
    table
}

/// A session that was stored last, in place of its earlier row, is loaded as it
/// was where it was active in the time before, and not at all where it was not.
/// Its documents must be as they were.
pub proof fn stored_session_is_loaded_while_active(
    rows: Seq<StoredSession>,
    x: StoredSession,
    s: SessionView,
    written: WrittenDocs,
    saved: u64,
    now: u64,
)
    requires
        now >= SESSION_IDLE_LIMIT,
        s.last_activity <= i64::MAX,
        now - SESSION_IDLE_LIMIT <= i64::MAX,
        stored_as(x.row, s, written, saved),
        docs_hold(x.docs, s),
    ensures
        ({
            let loaded = sessions_loaded(rows_replacing(rows, x), now);
            if now - SESSION_IDLE_LIMIT < s.last_activity {
                loaded.contains_key(s.session_id) && loaded[s.session_id] == s
            } else {
                !loaded.contains_key(s.session_id)
            }
        }),
{
    let id = x.row.session_id@;
    let active = active_after(cutoff_at(now));
    let others = rows.filter(row_of_other(id));
    stored_session_reads_back(s, x.row, written, x.docs, saved);
    others.lemma_filter_push(x, active);
    if active(x) {
        row_more_counts(others.filter(active), x);
    } else {
        assert forall|i: int| 0 <= i < others.filter(active).len() implies (
        #[trigger] others.filter(active)[i]).row.session_id@ != id by {
            let y = others.filter(active)[i];
            others.lemma_filter_contains_rev(active, y);
            let j = choose|j: int| 0 <= j < others.len() && others[j] == y;
            rows.lemma_filter_pred(row_of_other(id), j);
        }
        lemma_absent(others.filter(active), id);
    }
}

proof fn lemma_absent(rows: Seq<StoredSession>, id: Seq<char>)
    requires
        forall|i: int| 0 <= i < rows.len() ==> (#[trigger] rows[i]).row.session_id@ != id,
    ensures
        !sessions_in(rows).contains_key(id),
    decreases rows.len(),
{
    if rows.len() > 0 {
        let head = rows.drop_last();
        assert forall|i: int| 0 <= i < head.len() implies (#[trigger] head[i]).row.session_id@
            != id by {
            assert(head[i] == rows[i]);
        }
        lemma_absent(head, id);
        assert(rows[rows.len() - 1].row.session_id@ != id);
    }
}

/// What is kept of a session whose technicians have left.
#[derive(Debug)]
pub struct HistoryRow {
    /// Its id.
    pub session_id: String,
    /// The organisation that the truck belongs to.
    pub org_id: String,
    /// When its log begins, in seconds, in decimal.
    pub started_at: String,
    /// When the technicians left, in seconds, in decimal.
    pub ended_at: String,
    /// How it stood.
    pub status: String,
    /// What service was asked for.
    pub service_type: String,
    /// How many faults the truck reported.
    pub fault_count: i64,
    /// The truck, as a JSON object.
    pub truck_info: Option<String>,
    /// When the row was written, in seconds.
    pub created_at: i64,
}

/// Whether `r` is what the session `s` leaves in the history at `now`.
pub open spec fn history_of(
    r: HistoryRow,
    s: SessionView,
    truck_info: Option<String>,
    now: u64,
) -> bool {
    &&& r.session_id@ == s.session_id
    &&& r.org_id@ == s.org_id
    &&& r.started_at@ == if s.event_log.len() > 0 {
        s.event_log[0].timestamp
    } else {
        seq![]
    }
    &&& r.ended_at@ == decimal(now as nat)
    &&& r.status@ == s.status
    &&& r.service_type@ == s.service_type
    &&& r.fault_count == s.fault_codes.len() as i64
    &&& r.truck_info == truck_info
    &&& r.created_at == now as i64
}

/// The row of the history that a session leaves.
pub fn save_history(s: &SessionState, truck_info: Option<String>, now: u64) -> (r: HistoryRow)
    ensures
        history_of(r, s@, truck_info, now),
{
    assert(s@.event_log.len() == s.event_log@.len());
    let started_at = if s.event_log.len() > 0 {
        s.event_log[0].timestamp.clone()
    } else {
        String::new()
    };
    let fault_count: usize = s.fault_codes.len();
    assert(s@.fault_codes.len() == fault_count);
    HistoryRow {
        session_id: s.session_id.clone(),
        org_id: s.org_id.clone(),
        started_at,
        ended_at: to_decimal(now),
        status: s.status.clone(),
        service_type: s.service_type.clone(),
        fault_count: fault_count as i64,
        truck_info,
        created_at: now as i64,
    }
}

/// An organisation as a row of the database.
#[derive(Debug)]
pub struct OrgRow {
    /// Its id.
    pub org_id: String,
    /// Its password.
    pub password: String,
    /// Its name for people.
    pub display_name: String,
    /// Whether it is the operator of the service.
    pub is_diesellynk: i32,
}

/// The organisation that a row holds.
pub open spec fn org_in(row: OrgRow) -> OrgView {
    OrgView {
        password: row.password@,
        display_name: row.display_name@,
        is_diesellynk: row.is_diesellynk != 0,
    }
}

/// The organisations that rows hold, each under its id. Of rows with one id the
/// last counts.
pub open spec fn orgs_in(rows: Seq<OrgRow>) -> Map<Seq<char>, OrgView>
    decreases rows.len(),
{
    if rows.len() == 0 {
        Map::empty()
    } else {
        orgs_in(rows.drop_last()).insert(rows.last().org_id@, org_in(rows.last()))
    }
}

/// Reads the organisations from their rows.
pub fn load_orgs_from_db(rows: Vec<OrgRow>) -> (r: Table<Org>)
    ensures
        r.wf(),
        r@ == orgs_in(rows@),
{
    let mut table: Table<Org> = Table::new();
    for row in it: rows
        invariant
            it.seq() == rows@,
            table.wf(),
            table@ == orgs_in(rows@.take(it.index() as int)),
    {
        assert(rows@.take(it.index() + 1).drop_last() =~= rows@.take(it.index() as int));
        table.insert(
            row.org_id,
            Org {
                password: row.password,
                display_name: row.display_name,
                is_diesellynk: row.is_diesellynk != 0,
            },
        );
    }
    assert(rows@.take(rows@.len() as int) =~= rows@);
    table
}

/// An organisation that the database is to have from the start, unless its id
/// is there already.
#[derive(Debug)]
pub struct OrgSeed {
    /// Its id.
    pub org_id: String,
    /// Its name for people.
    pub display_name: String,
    /// Its password.
    pub password: String,
    /// Whether it is the operator of the service.
    pub is_diesellynk: bool,
}

/// The contents of an [`OrgSeed`].
#[verifier::ext_equal]
pub struct SeedView {
    /// Its id.
    pub org_id: Seq<char>,
    /// Its name for people.
    pub display_name: Seq<char>,
    /// Its password.
    pub password: Seq<char>,
    /// Whether it is the operator of the service.
    pub is_diesellynk: bool,
}

impl View for OrgSeed {
    type V = SeedView;

    open spec fn view(&self) -> SeedView {
        SeedView {
            org_id: self.org_id@,
            display_name: self.display_name@,
            password: self.password@,
            is_diesellynk: self.is_diesellynk,
        }
    }
}

/// The contents of a list of organisations to begin with.
pub open spec fn seed_views(v: Seq<OrgSeed>) -> Seq<SeedView> {
    v.map_values(|s: OrgSeed| s@)
}

/// The organisations that every new database gets: the operator, with the
/// master password or what stands in for it, and a fleet to try things with.
pub open spec fn standard_seeds(master_password: Option<String>) -> Seq<SeedView> {
    seq![
        SeedView {
            org_id: "diesellynk"@,
            display_name: "DieselLynk Internal"@,
            password: setting_or(master_password, "DL-master-2025!"@),
            is_diesellynk: true,
        },
        SeedView {
            org_id: "demo_fleet"@,
            display_name: "Demo Fleet"@,
            password: "demo1234"@,
            is_diesellynk: false,
        },
    ]
}

/// The organisation that an entry names: an id, a colon and a password, each
/// trimmed. An entry without a colon names none.
pub open spec fn entry_seed(entry: Seq<char>) -> Option<SeedView> {
    match after(entry, ":"@) {
        Some(password) => {
            let id = trimmed(before(entry, ":"@));
            Some(
                SeedView {
                    org_id: id,
                    display_name: id,
                    password: trimmed(password),
                    is_diesellynk: id == "diesellynk"@,
                },
            )
        },
        None => None,
    }
}

/// The organisations that entries name, in order.
pub open spec fn entry_seeds(entries: Seq<Seq<char>>) -> Seq<SeedView>
    decreases entries.len(),
{
    if entries.len() == 0 {
        seq![]
    } else {
        match entry_seed(entries.last()) {
            Some(s) => entry_seeds(entries.drop_last()).push(s),
            None => entry_seeds(entries.drop_last()),
        }
    }
}

/// The organisations that a setting names, between commas.
pub open spec fn setting_seeds(setting: Option<&str>) -> Seq<SeedView> {
    match setting {
        Some(s) => entry_seeds(pieces(s@, ',')),
        None => seq![],
    }
}

/// The organisations that the database is to have from the start: the standard
/// ones, unless the operator is there already, and those that the setting names.
pub open spec fn starting_seeds(
    operator_known: bool,
    master_password: Option<String>,
    setting: Option<&str>,
) -> Seq<SeedView> {
    if operator_known {
        setting_seeds(setting)
    } else {
        standard_seeds(master_password) + setting_seeds(setting)
    }
}

/// An organisation to begin with, as it is stored.
pub open spec fn seed_org(s: SeedView) -> OrgView {
    OrgView {
        password: s.password,
        display_name: s.display_name,
        is_diesellynk: s.is_diesellynk,
    }
}

/// The organisations after those to begin with were put among them, each unless
/// its id was there already.
pub open spec fn seeded(m: Map<Seq<char>, OrgView>, seeds: Seq<SeedView>) -> Map<
    Seq<char>,
    OrgView,
>
    decreases seeds.len(),
{
    if seeds.len() == 0 {
        m
    } else {
        let earlier = seeded(m, seeds.drop_last());
        if earlier.contains_key(seeds.last().org_id) {
            earlier
        } else {
            earlier.insert(seeds.last().org_id, seed_org(seeds.last()))
        }
    }
}

proof fn lemma_seeded_holds(m: Map<Seq<char>, OrgView>, seeds: Seq<SeedView>)
    ensures
        forall|k: Seq<char>| #[trigger] m.contains_key(k) ==> seeded(m, seeds).contains_key(k),
        forall|i: int|
            0 <= i < seeds.len() ==> seeded(m, seeds).contains_key((#[trigger] seeds[i]).org_id),
    decreases seeds.len(),
{
    if seeds.len() > 0 {
        let fewer = seeds.drop_last();
        lemma_seeded_holds(m, fewer);
        assert forall|i: int| 0 <= i < seeds.len() implies seeded(m, seeds).contains_key(
            (#[trigger] seeds[i]).org_id,
        ) by {
            if i < fewer.len() {
                assert(fewer[i] == seeds[i]);
            }
        }
    }
}

proof fn lemma_seeding_what_is_there(m: Map<Seq<char>, OrgView>, seeds: Seq<SeedView>)
    requires
        forall|i: int| 0 <= i < seeds.len() ==> m.contains_key((#[trigger] seeds[i]).org_id),
    ensures
        seeded(m, seeds) == m,
    decreases seeds.len(),
{
    if seeds.len() > 0 {
        let fewer = seeds.drop_last();
        assert forall|i: int| 0 <= i < fewer.len() implies m.contains_key(
            (#[trigger] fewer[i]).org_id,
        ) by {
            assert(fewer[i] == seeds[i]);
        }
        lemma_seeding_what_is_there(m, fewer);
        assert(m.contains_key(seeds[seeds.len() - 1].org_id));
    }
}

/// Putting organisations to begin with into the database changes none that was
/// there.
pub proof fn seeding_changes_no_organisation(
    m: Map<Seq<char>, OrgView>,
    seeds: Seq<SeedView>,
    id: Seq<char>,
)
    requires
        m.contains_key(id),
    ensures
        seeded(m, seeds).contains_key(id),
        seeded(m, seeds)[id] == m[id],
    decreases seeds.len(),
{
    if seeds.len() > 0 {
        seeding_changes_no_organisation(m, seeds.drop_last(), id);
    }
}

/// A later start with the same settings names no organisation that the first did
/// not name.
pub proof fn later_start_names_nobody_new(
    operator_known: bool,
    master_password: Option<String>,
    setting: Option<&str>,
    i: int,
)
    requires
        0 <= i < starting_seeds(true, master_password, setting).len(),
    ensures
        starting_seeds(operator_known, master_password, setting).contains(
            starting_seeds(true, master_password, setting)[i],
        ),
{
    let first = starting_seeds(operator_known, master_password, setting);
    let later = starting_seeds(true, master_password, setting);
    let skipped = first.len() - later.len();
    assert(first[skipped + i] == later[i]);
}

/// A later start with the same settings adds and changes no organisation, as long
/// as none has been removed since: organisations may have been added, and
/// passwords changed.
pub proof fn later_start_changes_nothing(
    before: Map<Seq<char>, OrgView>,
    since: Map<Seq<char>, OrgView>,
    master_password: Option<String>,
    setting: Option<&str>,
)
    requires
        forall|k: Seq<char>| #[trigger]
            seeded(
                before,
                starting_seeds(before.contains_key("diesellynk"@), master_password, setting),
            ).contains_key(k) ==> since.contains_key(k),
    ensures
        since.contains_key("diesellynk"@),
        seeded(
            since,
            starting_seeds(since.contains_key("diesellynk"@), master_password, setting),
        ) == since,
{
    let known = before.contains_key("diesellynk"@);
    let first = starting_seeds(known, master_password, setting);
    let later = starting_seeds(true, master_password, setting);
    lemma_seeded_holds(before, first);
    if !known {
        assert(first[0].org_id == "diesellynk"@);
    }
    assert(seeded(before, first).contains_key("diesellynk"@));
    assert forall|i: int| 0 <= i < later.len() implies since.contains_key(
        (#[trigger] later[i]).org_id,
    ) by {
        later_start_names_nobody_new(known, master_password, setting, i);
        let j = choose|j: int| 0 <= j < first.len() && first[j] == later[i];
        assert(seeded(before, first).contains_key(first[j].org_id));
    }
    lemma_seeding_what_is_there(since, later);
}

fn seed_from_entry(entry: &str) -> (r: Option<OrgSeed>)
    ensures
        match r {
            Some(s) => entry_seed(entry@) == Some(s@),
            None => entry_seed(entry@) is None,
        },
{
    match text_after(entry, ":") {
        Some(password) => {
            let id = trim(text_before(entry, ":").as_str());
            Some(
                OrgSeed {
                    org_id: id.clone(),
                    display_name: id.clone(),
                    password: trim(password.as_str()),
                    is_diesellynk: same(id.as_str(), "diesellynk"),
                },
            )
        },
        None => None,
    }
}

/// The organisations that the database is to have from the start: the standard
/// ones, unless the operator is there already, and those that the setting names.
pub fn init_db(
    operator_known: bool,
    master_password: Option<String>,
    org_passwords: Option<&str>,
) -> (r: Vec<OrgSeed>)
    ensures
        seed_views(r@) == starting_seeds(operator_known, master_password, org_passwords),
{
    let mut seeds: Vec<OrgSeed> = Vec::new();
    if !operator_known {
        seeds.push(
            OrgSeed {
                org_id: "diesellynk".to_owned(),
                display_name: "DieselLynk Internal".to_owned(),
                password: or_default(master_password, "DL-master-2025!"),
                is_diesellynk: true,
            },
        );
        seeds.push(
            OrgSeed {
                org_id: "demo_fleet".to_owned(),
                display_name: "Demo Fleet".to_owned(),
                password: "demo1234".to_owned(),
                is_diesellynk: false,
            },
        );
        assert(seed_views(seeds@) =~= standard_seeds(master_password));
    }
    let ghost first = seed_views(seeds@);
    match org_passwords {
        Some(setting) => {
            let entries = split(setting, ',');
            let n: usize = entries.len();
            let mut i: usize = 0;
            assert(texts(entries@).take(0) =~= seq![]);
            assert(seed_views(seeds@) =~= first + entry_seeds(texts(entries@).take(0)));
            while i < n
                invariant
                    i <= n == entries@.len(),
                    seed_views(seeds@) == first + entry_seeds(texts(entries@).take(i as int)),
                decreases n - i,
            {
                let ghost before = seed_views(seeds@);
                let ghost longer = texts(entries@).take(i + 1);
                assert(longer.drop_last() =~= texts(entries@).take(i as int));
                assert(longer.last() == entries@[i as int]@);
                match seed_from_entry(entries[i].as_str()) {
                    Some(s) => {
                        seeds.push(s);
                        assert(seed_views(seeds@) =~= before.push(s@));
                        assert(before.push(s@) =~= first + entry_seeds(longer));
                    },
                    None => {},
                }
                i += 1;
            }
            assert(texts(entries@).take(n as int) =~= texts(entries@));
        },
        None => {
            assert(first + seq![] =~= first);
        },
    }
    assert(seq![] + setting_seeds(org_passwords) =~= setting_seeds(org_passwords));
    seeds
}

/// The second up to which stored sessions count as idle.
pub fn session_cutoff(now: u64) -> (r: i64)
    requires
        now >= SESSION_IDLE_LIMIT,
    ensures
        r == cutoff_at(now),
{
    (now - SESSION_IDLE_LIMIT) as i64
}

/// The second before which stored rate limits are dropped.
pub fn rate_limit_cutoff(now: u64) -> (r: i64)
    requires
        now >= BUCKET_LIFE,
    ensures
        r == (now - BUCKET_LIFE) as i64,
{
    (now - BUCKET_LIFE) as i64
}

} // verus!
