//! What the database keeps, and what comes back from it.

#[allow(unused_imports)]
use crate::admin::{
    counts_of, has_adapter, has_call, has_many_techs, new_org_result, removal_result, rows_reply,
    tally, NewOrg, Stats,
};
#[allow(unused_imports)]
use crate::config::setting_or;
#[allow(unused_imports)]
use crate::json::{read_texts, written_texts};
#[allow(unused_imports)]
use crate::model::{event_views, fault_views, truck_view, OrgView, SessionView, TechView};
#[allow(unused_imports)]
use crate::numerals::decimal;
#[allow(unused_imports)]
use crate::registry::{leads_to, socket_joins, SocketJoin, TabletInfo};
#[allow(unused_imports)]
use crate::reply::{Reply, Status};
#[allow(unused_imports)]
use crate::store::{
    active_after, cutoff_at, entry_seed, entry_seeds, history_of, orgs_in, restored,
    restored_with, seed_org, sessions_loaded, starting_seeds, stored_as, HistoryRow, OrgRow,
    ReadDocs, SeedView, SessionRow, StoredSession, WrittenDocs,
};
#[allow(unused_imports)]
use crate::technician::{answers_join, TechJoin};
#[allow(unused_imports)]
use crate::text::{lemma_position_at, lemma_position_none, pieces, trimmed};
use vstd::prelude::*;
use vstd::string::*;

verus! {

/// Each column of a stored row holds what its name says: texts as they are, truth
/// values as one or nothing, times as they are.
pub proof fn columns_hold_the_session(
    row: SessionRow,
    s: SessionView,
    docs: WrittenDocs,
    now: u64,
)
    requires
        stored_as(row, s, docs, now),
        s.last_activity <= i64::MAX,
        now <= i64::MAX,
    ensures
        row.session_id@ == s.session_id && row.org_id@ == s.org_id,
        row.driver_token@ == s.driver_token && row.tech_token@ == s.tech_token,
        row.status@ == s.status && row.command@ == s.command && row.priority@ == s.priority,
        row.customer_message@ == s.customer_message && row.adapter_name@ == s.adapter_name,
        row.service_request_time@ == s.service_request_time,
        row.service_type@ == s.service_type,
        row.tablet_ws_url@ == s.tablet_ws_url && row.guac_url@ == s.guac_url,
        s.requires_ack ==> row.requires_ack == 1,
        !s.requires_ack ==> row.requires_ack == 0,
        s.customer_ack ==> row.customer_ack == 1,
        !s.customer_ack ==> row.customer_ack == 0,
        s.show_modal ==> row.show_modal == 1,
        !s.show_modal ==> row.show_modal == 0,
        s.nexiq_connected ==> row.nexiq_connected == 1,
        !s.nexiq_connected ==> row.nexiq_connected == 0,
        s.service_requested ==> row.service_requested == 1,
        !s.service_requested ==> row.service_requested == 0,
        docs.fault_codes matches Some(f) ==> row.fault_codes@ == f@,
        docs.fault_codes is None ==> row.fault_codes@.len() == 0,
        docs.event_log matches Some(e) ==> row.event_log@ == e@,
        docs.event_log is None ==> row.event_log@.len() == 0,
        docs.truck_info matches Some(t) ==> (row.truck_info matches Some(u) && u@ == t@),
        docs.truck_info is None ==> row.truck_info is None,
        docs.live_data matches Some(l) ==> (row.live_data matches Some(u) && u@ == l@),
        docs.live_data is None ==> row.live_data is None,
        row.connected_techs@ == written_texts(s.connected_techs),
        row.created_at == now,
        row.last_activity == s.last_activity,
{
}

/// A session that is read back has in each field what its column or document
/// holds; a number that is not zero stands for yes.
pub proof fn fields_hold_the_columns(row: SessionRow, docs: ReadDocs, techs: Seq<Seq<char>>)
    requires
        row.last_activity >= 0,
    ensures
        ({
            let s = restored_with(row, docs, techs);
            &&& s.session_id == row.session_id@ && s.org_id == row.org_id@
            &&& s.driver_token == row.driver_token@ && s.tech_token == row.tech_token@
            &&& s.status == row.status@ && s.command == row.command@
            &&& s.priority == row.priority@ && s.customer_message == row.customer_message@
            &&& s.adapter_name == row.adapter_name@ && s.service_type == row.service_type@
            &&& s.service_request_time == row.service_request_time@
            &&& s.tablet_ws_url == row.tablet_ws_url@ && s.guac_url == row.guac_url@
            &&& s.requires_ack <==> row.requires_ack != 0
            &&& s.customer_ack <==> row.customer_ack != 0
            &&& s.show_modal <==> row.show_modal != 0
            &&& s.nexiq_connected <==> row.nexiq_connected != 0
            &&& s.service_requested <==> row.service_requested != 0
            &&& match docs.fault_codes {
                Some(f) => s.fault_codes == fault_views(f@),
                None => s.fault_codes.len() == 0,
            }
            &&& match docs.event_log {
                Some(e) => s.event_log == event_views(e@),
                None => s.event_log.len() == 0,
            }
            &&& s.truck_info == truck_view(docs.truck_info) && s.live_data == docs.live_data
            &&& s.connected_techs == techs
            &&& s.last_activity == row.last_activity
        }),
{
}

/// Those who have joined are those that the column lists, and nobody where it
/// cannot be read.
pub proof fn joined_are_those_listed(row: SessionRow, docs: ReadDocs)
    ensures
        read_texts(row.connected_techs@) matches Some(list) ==> restored(row, docs)
            == restored_with(row, docs, list),
        read_texts(row.connected_techs@) is None ==> restored(row, docs) == restored_with(
            row,
            docs,
            seq![],
        ),
{
}

/// One row more is loaded exactly where its session was active in the last twelve
/// hours.
pub proof fn loading_takes_active_rows(rows: Seq<StoredSession>, x: StoredSession, now: u64)
    requires
        43200 <= now <= i64::MAX,
    ensures
        sessions_loaded(rows.push(x), now) == if x.row.last_activity > now - 43200 {
            sessions_loaded(rows, now).insert(x.row.session_id@, restored(x.row, x.docs))
        } else {
            sessions_loaded(rows, now)
        },
        sessions_loaded(seq![], now) == Map::<Seq<char>, SessionView>::empty(),
{
    let p = active_after(cutoff_at(now));
    rows.lemma_filter_push(x, p);
    Seq::<StoredSession>::empty().lemma_filter_len(p);
    if x.row.last_activity > now - 43200 {
        crate::store::row_more_counts(rows.filter(p), x);
    }
}

/// One row more puts its organisation under its id, with the password, name and
/// standing of the row, in place of any that was there.
pub proof fn organisation_rows_count(rows: Seq<OrgRow>, x: OrgRow, other: Seq<char>)
    ensures
        orgs_in(Seq::<OrgRow>::empty()) == Map::<Seq<char>, OrgView>::empty(),
        ({
            let m = orgs_in(rows.push(x));
            &&& m.contains_key(x.org_id@)
            &&& m[x.org_id@].password == x.password@
            &&& m[x.org_id@].display_name == x.display_name@
            &&& m[x.org_id@].is_diesellynk <==> x.is_diesellynk != 0
            &&& other != x.org_id@ ==> m.contains_key(other) == orgs_in(rows).contains_key(other)
                && m[other] == orgs_in(rows)[other]
        }),
{
    assert(rows.push(x).drop_last() =~= rows);
}

/// An entry that is an id without a colon, a colon and anything more names the
/// organisation with that id and with the rest as its password, both trimmed; it
/// is the operator exactly where the id is the operator's.
pub proof fn entries_name_an_id_and_a_password(id: Seq<char>, password: Seq<char>)
    requires
        !id.contains(':'),
    ensures
        entry_seed(id + ":"@ + password) matches Some(s) && s.org_id == trimmed(id)
            && s.display_name == trimmed(id) && s.password == trimmed(password) && (
        s.is_diesellynk <==> trimmed(id) == "diesellynk"@),
{
    reveal_strlit(":");
    let colon = ":"@;
    let e = id + colon + password;
    assert(e.skip(id.len() as int) =~= colon + password);
    assert(colon.is_prefix_of(e.skip(id.len() as int))) by {
        assert((colon + password).subrange(0, colon.len() as int) =~= colon);
    }
    assert forall|j: int| 0 <= j < id.len() implies !colon.is_prefix_of(#[trigger] e.skip(j)) by {
        if colon.is_prefix_of(e.skip(j)) {
            assert(e.skip(j)[0] == colon[0]);
            assert(id[j] == ':');
        }
    }
    lemma_position_at(e, colon, id.len() as int);
    assert(e.take(id.len() as int) =~= id);
    assert(e.skip(id.len() as int + colon.len()) =~= password);
}

/// An entry without a colon names nobody.
pub proof fn entries_without_a_colon_name_nobody(e: Seq<char>)
    requires
        !e.contains(':'),
    ensures
        entry_seed(e) is None,
{
    reveal_strlit(":");
    let colon = ":"@;
    assert forall|j: int| 0 <= j <= e.len() implies !colon.is_prefix_of(#[trigger] e.skip(j)) by {
        if colon.is_prefix_of(e.skip(j)) {
            assert(e.skip(j)[0] == colon[0]);
            assert(e[j] == ':');
        }
    }
    lemma_position_none(e, colon);
}

/// One entry more names its organisation behind the others, or nobody.
pub proof fn entries_are_taken_in_order(entries: Seq<Seq<char>>, e: Seq<char>)
    ensures
        entry_seeds(seq![]).len() == 0,
        entry_seeds(entries.push(e)) == match entry_seed(e) {
            Some(s) => entry_seeds(entries).push(s),
            None => entry_seeds(entries),
        },
{
    assert(entries.push(e).drop_last() =~= entries);
}

/// A new database begins with the operator, under the master password that is set
/// or the standard one, and a fleet to try things with; after them, or alone where
/// the operator is known, come the organisations that the setting names.
pub proof fn databases_begin_with_the_operator(
    master_password: Option<String>,
    setting: Option<&str>,
)
    ensures
        ({
            let named = starting_seeds(true, master_password, setting);
            let all = starting_seeds(false, master_password, setting);
            &&& all.len() == 2 + named.len()
            &&& all.skip(2) == named
            &&& all[0].org_id == "diesellynk"@ && all[0].display_name == "DieselLynk Internal"@
            &&& all[0].is_diesellynk
            &&& master_password matches Some(m) ==> all[0].password == m@
            &&& master_password is None ==> all[0].password == "DL-master-2025!"@
            &&& all[1].org_id == "demo_fleet"@ && all[1].display_name == "Demo Fleet"@
            &&& all[1].password == "demo1234"@ && !all[1].is_diesellynk
            &&& setting is None ==> named.len() == 0
            &&& setting matches Some(t) ==> named == entry_seeds(pieces(t@, ','))
        }),
{
    let named = starting_seeds(true, master_password, setting);
    let all = starting_seeds(false, master_password, setting);
    assert(all.skip(2) =~= named);
}

/// An organisation to begin with is stored as it is.
pub proof fn seeds_are_stored_as_they_are(s: SeedView)
    ensures
        seed_org(s).password == s.password,
        seed_org(s).display_name == s.display_name,
        seed_org(s).is_diesellynk == s.is_diesellynk,
{
}

/// The history keeps whose session it was, from its first event to the end, how it
/// stood, what was asked for and how many faults there were.
pub proof fn history_keeps_the_outline(
    r: HistoryRow,
    s: SessionView,
    truck_info: Option<String>,
    now: u64,
)
    requires
        history_of(r, s, truck_info, now),
        s.fault_codes.len() <= i64::MAX,
        now <= i64::MAX,
    ensures
        r.session_id@ == s.session_id && r.org_id@ == s.org_id,
        s.event_log.len() > 0 ==> r.started_at@ == s.event_log.first().timestamp,
        s.event_log.len() == 0 ==> r.started_at@.len() == 0,
        r.ended_at@ == decimal(now as nat),
        r.status@ == s.status && r.service_type@ == s.service_type,
        r.fault_count == s.fault_codes.len(),
        r.truck_info == truck_info,
        r.created_at == now,
{
}

/// A setting that is there counts as it is, and what stands in for it only where
/// it is missing.
pub proof fn settings_count_where_they_are(setting: Option<String>, default: Seq<char>)
    ensures
        setting matches Some(s) ==> setting_or(setting, default) == s@,
        setting is None ==> setting_or(setting, default) == default,
{
}

/// A technician who joins is told the id, the token and the organisation of the
/// session, and it is noted whether anything was changed.
pub proof fn joining_is_answered_with_the_session(j: TechJoin, s: SessionView, org_id: Seq<char>)
    requires
        answers_join(j, s, org_id),
    ensures
        j.session_id@ == s.session_id,
        j.tech_token@ == s.tech_token,
        j.org_id@ == s.org_id,
        j.changed <==> !s.connected_techs.contains(org_id),
{
}

/// A tablet is told the id, the driver token and the organisation of the session.
pub proof fn tablets_are_told_the_session(t: TabletInfo, s: SessionView)
    requires
        leads_to(t, s),
    ensures
        t.session_id@ == s.session_id,
        t.driver_token@ == s.driver_token,
        t.org_id@ == s.org_id,
{
}

/// A socket comes to the session that it asks for: one that is there stays as it
/// is, one that is not begins, and no other is touched.
pub proof fn sockets_come_to_their_session(
    r: SocketJoin,
    before: Map<Seq<char>, SessionView>,
    after: Map<Seq<char>, SessionView>,
    id: Seq<char>,
    begun: SessionView,
    other: Seq<char>,
)
    requires
        socket_joins(r, before, after, id, begun),
    ensures
        r.session_id@ == id,
        r.created <==> !before.contains_key(id),
        after.contains_key(id),
        before.contains_key(id) ==> after == before,
        !before.contains_key(id) ==> after[id] == begun,
        other != id ==> after.contains_key(other) == before.contains_key(other) && after[other]
            == before[other],
{
}

/// An organisation is taken up exactly with an id and a password, and then with
/// that id, its password and its name, both trimmed; otherwise the administrator is
/// told what is missing.
pub proof fn organisations_need_id_and_password(
    r: Result<NewOrg, Reply>,
    org_id: Seq<char>,
    password: Seq<char>,
    display_name: Seq<char>,
)
    requires
        new_org_result(r, org_id, password, display_name),
    ensures
        r is Ok <==> org_id.len() > 0 && trimmed(password).len() > 0,
        r matches Ok(o) ==> o.org_id@ == org_id && o.password@ == trimmed(password)
            && o.display_name@ == trimmed(display_name),
        r matches Err(e) ==> e@.status == Status::BadRequest && !e@.ok && e@.message
            == "org_id and password required"@,
{
}

/// Any organisation but the operator may be removed, under its own id.
pub proof fn operator_is_not_removed(r: Result<String, Reply>, org_id: Seq<char>)
    requires
        removal_result(r, org_id),
    ensures
        r is Ok <==> org_id != "diesellynk"@,
        r matches Ok(id) ==> id@ == org_id,
        r matches Err(e) ==> e@.status == Status::BadRequest && !e@.ok && e@.message
            == "Cannot remove DieselLynk org"@,
{
}

/// A change to an organisation is done exactly where it changed a row.
pub proof fn changes_are_answered_by_rows(message: Seq<char>, rows: usize)
    ensures
        ({
            let r = rows_reply(message, rows);
            &&& r.ok <==> rows >= 1
            &&& rows >= 1 ==> r.status == Status::Success && r.message == message
            &&& rows == 0 ==> r.status == Status::NotFound && r.message == "Org not found"@
        }),
{
}

/// The numbers are those of sessions, technicians, organisations and histories.
pub proof fn numbers_count_what_they_name(
    r: Stats,
    sessions: Seq<(Seq<char>, SessionView)>,
    techs: Seq<(Seq<char>, TechView)>,
    orgs: Seq<(Seq<char>, OrgView)>,
    history_count: i64,
)
    requires
        counts_of(r, sessions, techs, orgs, history_count),
    ensures
        r.total_sessions == sessions.len() && r.active_techs == techs.len(),
        r.total_orgs == orgs.len() && r.total_history == history_count,
        r.service_requested == tally(sessions, |s: SessionView| s.service_requested),
        r.nexiq_connected == tally(sessions, |s: SessionView| s.nexiq_connected),
        r.multi_tech_sessions == tally(sessions, |s: SessionView| s.connected_techs.len() > 1),
{
    assert(has_call() =~= (|s: SessionView| s.service_requested));
    assert(has_adapter() =~= (|s: SessionView| s.nexiq_connected));
    assert(has_many_techs() =~= (|s: SessionView| s.connected_techs.len() > 1));
}

} // verus!
