//! What administrators see and change. Every request takes an [`AdminPass`], and
//! uses it up.

use crate::auth::{org_key_of, AdminPass};
#[allow(unused_imports)]
use crate::auth::{ascii_key_known, org_key};
use crate::model::{copy_truck, Org, SessionState, TechSession, TruckInfo};
#[allow(unused_imports)]
use crate::model::{truck_view, OrgView, SessionView, TechView, TruckView};
use crate::reply::{accept, refuse, Reply, Status};
#[allow(unused_imports)]
use crate::reply::{done, refused, ReplyView};
use crate::table::Table;
use crate::text::{contains, same, trim};
#[allow(unused_imports)]
use crate::text::{position, trimmed};
use vstd::prelude::*;
use vstd::string::*;

verus! {

/// An organisation to be put into the database.
#[derive(Debug)]
pub struct NewOrg {
    /// Its id.
    pub org_id: String,
    /// Its name for people.
    pub display_name: String,
    /// Its password.
    pub password: String,
}

/// What comes of an organisation to be added, under an id in the spelling to keep.
pub open spec fn new_org_result(
    r: Result<NewOrg, Reply>,
    org_id: Seq<char>,
    password: Seq<char>,
    display_name: Seq<char>,
) -> bool {
    match r {
        Ok(o) => {
            &&& org_id.len() > 0 && trimmed(password).len() > 0
            &&& o.org_id@ == org_id
            &&& o.display_name@ == trimmed(display_name)
            &&& o.password@ == trimmed(password)
        },
        Err(e) => {
            &&& org_id.len() == 0 || trimmed(password).len() == 0
            &&& e@ == refused(Status::BadRequest, "org_id and password required"@)
        },
    }
}

/// Checks an organisation to be added, under an id in the spelling to keep: it
/// needs an id and a password.
pub fn check_new_org(
    org_id: String,
    password: &str,
    display_name: &str,
) -> (r: Result<NewOrg, Reply>)
    ensures
        new_org_result(r, org_id@, password@, display_name@),
{
    let secret = trim(password);
    if org_id.as_str().is_empty() || secret.as_str().is_empty() {
        return Err(refuse(Status::BadRequest, "org_id and password required"));
    }
    Ok(NewOrg { org_id, display_name: trim(display_name), password: secret })
}

/// Checks an organisation to be added, as it was typed in.
pub fn admin_add_org(
    _pass: AdminPass,
    org_id: &str,
    password: &str,
    display_name: &str,
) -> (r: Result<NewOrg, Reply>)
    ensures
        new_org_result(r, org_key(org_id@), password@, display_name@),
        ascii_key_known(org_id@),
{
    check_new_org(org_key_of(org_id), password, display_name)
}

/// What the administrator is told once the database was asked to add an
/// organisation. A complaint that speaks of `UNIQUE` means that it is there
/// already.
pub open spec fn added_reply(org_id: Seq<char>, complaint: Option<String>) -> ReplyView {
    match complaint {
        None => done("Org '"@ + org_id + "' created"@),
        Some(e) => if position(e@, "UNIQUE"@) is Some {
            refused(Status::Conflict, "Org already exists"@)
        } else {
            refused(Status::InternalServerError, e@)
        },
    }
}

fn quoted(start: &str, name: &str, end: &str) -> (r: String)
    ensures
        r@ == start@ + name@ + end@,
{
    let mut r = start.to_owned();
    r.append(name);
    r.append(end);
    r
}

/// Tells the administrator how adding an organisation went.
pub fn report_added(org_id: &str, complaint: Option<String>) -> (r: Reply)
    ensures
        r@ == added_reply(org_id@, complaint),
{
    match complaint {
        None => accept(quoted("Org '", org_id, "' created").as_str()),
        Some(e) => {
            if contains(e.as_str(), "UNIQUE") {
                refuse(Status::Conflict, "Org already exists")
            } else {
                refuse(Status::InternalServerError, e.as_str())
            }
        },
    }
}

/// What comes of an organisation to be removed, under an id in the spelling to
/// keep.
pub open spec fn removal_result(r: Result<String, Reply>, org_id: Seq<char>) -> bool {
    match r {
        Ok(id) => org_id != "diesellynk"@ && id@ == org_id,
        Err(e) => org_id == "diesellynk"@ && e@ == refused(
            Status::BadRequest,
            "Cannot remove DieselLynk org"@,
        ),
    }
}

/// Checks an organisation to be removed, under an id in the spelling to keep:
/// it must not be the operator.
pub fn check_removal(org_id: String) -> (r: Result<String, Reply>)
    ensures
        removal_result(r, org_id@),
{
    if same(org_id.as_str(), "diesellynk") {
        return Err(refuse(Status::BadRequest, "Cannot remove DieselLynk org"));
    }
    Ok(org_id)
}

/// Checks an organisation to be removed, as it was typed in.
pub fn admin_remove_org(_pass: AdminPass, org_id: &str) -> (r: Result<String, Reply>)
    ensures
        removal_result(r, org_key(org_id@)),
        ascii_key_known(org_id@),
{
    check_removal(org_key_of(org_id))
}

/// What the administrator is told once so many rows of an organisation were
/// changed: that it was done, or that there is no such organisation.
pub open spec fn rows_reply(message: Seq<char>, rows: usize) -> ReplyView {
    if rows > 0 {
        done(message)
    } else {
        refused(Status::NotFound, "Org not found"@)
    }
}

/// Tells the administrator how many rows removing an organisation changed.
pub fn report_removed(org_id: &str, rows: usize) -> (r: Reply)
    ensures
        r@ == rows_reply("Org '"@ + org_id@ + "' removed"@, rows),
{
    if rows > 0 {
        accept(quoted("Org '", org_id, "' removed").as_str())
    } else {
        refuse(Status::NotFound, "Org not found")
    }
}

/// A password to be set.
#[derive(Debug)]
pub struct PasswordReset {
    /// The organisation's id.
    pub org_id: String,
    /// Its new password.
    pub password: String,
}

/// Makes ready a password to be set. The id is trimmed and keeps its letters.
pub fn admin_reset_password(_pass: AdminPass, org_id: &str, password: &str) -> (r: PasswordReset)
    ensures
        r.org_id@ == trimmed(org_id@),
        r.password@ == trimmed(password@),
{
    PasswordReset { org_id: trim(org_id), password: trim(password) }
}

/// Tells the administrator how many rows setting a password changed. The id is
/// shown as it was typed in.
pub fn report_reset(org_id: &str, rows: usize) -> (r: Reply)
    ensures
        r@ == rows_reply("Password updated for '"@ + org_id@ + "'"@, rows),
{
    if rows > 0 {
        accept(quoted("Password updated for '", org_id, "'").as_str())
    } else {
        refuse(Status::NotFound, "Org not found")
    }
}

/// An organisation in brief.
#[derive(Debug)]
pub struct OrgSummary {
    /// Its id.
    pub org_id: String,
    /// Its name for people.
    pub display_name: String,
    /// Whether it is the operator of the service.
    pub is_diesellynk: bool,
    /// How many sessions it has.
    pub session_count: usize,
    /// How many of its technicians are logged in.
    pub active_techs: usize,
    /// Whether it has a password: every organisation has.
    pub password_set: bool,
}

/// The contents of an [`OrgSummary`].
#[verifier::ext_equal]
pub struct OrgSummaryView {
    /// Its id.
    pub org_id: Seq<char>,
    /// Its name for people.
    pub display_name: Seq<char>,
    /// Whether it is the operator of the service.
    pub is_diesellynk: bool,
    /// How many sessions it has.
    pub session_count: nat,
    /// How many of its technicians are logged in.
    pub active_techs: nat,
    /// Whether it has a password.
    pub password_set: bool,
}

impl View for OrgSummary {
    type V = OrgSummaryView;

    open spec fn view(&self) -> OrgSummaryView {
        OrgSummaryView {
            org_id: self.org_id@,
            display_name: self.display_name@,
            is_diesellynk: self.is_diesellynk,
            session_count: self.session_count as nat,
            active_techs: self.active_techs as nat,
            password_set: self.password_set,
        }
    }
}

/// The contents of a list of organisations in brief.
pub open spec fn org_summary_views(v: Seq<OrgSummary>) -> Seq<OrgSummaryView> {
    v.map_values(|o: OrgSummary| o@)
}

/// How many rows satisfy `p`.
pub open spec fn tally<A>(rows: Seq<(Seq<char>, A)>, p: spec_fn(A) -> bool) -> nat
    decreases rows.len(),
{
    if rows.len() == 0 {
        0
    } else if p(rows.last().1) {
        tally(rows.drop_last(), p) + 1
    } else {
        tally(rows.drop_last(), p)
    }
}

proof fn lemma_tally_take<A>(rows: Seq<(Seq<char>, A)>, p: spec_fn(A) -> bool, i: int)
    requires
        0 <= i < rows.len(),
    ensures
        tally(rows.take(i + 1), p) == tally(rows.take(i), p) + if p(rows[i].1) {
            1int
        } else {
            0int
        },
{
    assert(rows.take(i + 1).drop_last() =~= rows.take(i));
}

/// Whether a session is the organisation's.
pub open spec fn session_of_org(org_id: Seq<char>) -> spec_fn(SessionView) -> bool {
    |s: SessionView| s.org_id == org_id
}

/// Whether a technician is the organisation's.
pub open spec fn tech_of_org(org_id: Seq<char>) -> spec_fn(TechView) -> bool {
    |t: TechView| t.org_id == org_id
}

fn count_sessions_of(sessions: &Table<SessionState>, org_id: &str) -> (r: usize)
    ensures
        r == tally(sessions.rows(), session_of_org(org_id@)),
{
    let n: usize = sessions.len();
    let mut count: usize = 0;
    let mut i: usize = 0;
    while i < n
        invariant
            i <= n == sessions.rows().len(),
            count <= i,
            count == tally(sessions.rows().take(i as int), session_of_org(org_id@)),
        decreases n - i,
    {
        proof {
            lemma_tally_take(sessions.rows(), session_of_org(org_id@), i as int);
        }
        if same(sessions.value_at(i).org_id.as_str(), org_id) {
            count += 1;
        }
        i += 1;
    }
    assert(sessions.rows().take(n as int) =~= sessions.rows());
    count
}

fn count_techs_of(techs: &Table<TechSession>, org_id: &str) -> (r: usize)
    ensures
        r == tally(techs.rows(), tech_of_org(org_id@)),
{
    let n: usize = techs.len();
    let mut count: usize = 0;
    let mut i: usize = 0;
    while i < n
        invariant
            i <= n == techs.rows().len(),
            count <= i,
            count == tally(techs.rows().take(i as int), tech_of_org(org_id@)),
        decreases n - i,
    {
        proof {
            lemma_tally_take(techs.rows(), tech_of_org(org_id@), i as int);
        }
        if same(techs.value_at(i).org_id.as_str(), org_id) {
            count += 1;
        }
        i += 1;
    }
    assert(techs.rows().take(n as int) =~= techs.rows());
    count
}

/// An organisation in brief.
pub open spec fn org_summary(
    row: (Seq<char>, OrgView),
    sessions: Seq<(Seq<char>, SessionView)>,
    techs: Seq<(Seq<char>, TechView)>,
) -> OrgSummaryView {
    OrgSummaryView {
        org_id: row.0,
        display_name: row.1.display_name,
        is_diesellynk: row.1.is_diesellynk,
        session_count: tally(sessions, session_of_org(row.0)),
        active_techs: tally(techs, tech_of_org(row.0)),
        password_set: true,
    }
}

/// Lists the organisations.
pub fn admin_get_orgs(
    _pass: AdminPass,
    orgs: &Table<Org>,
    sessions: &Table<SessionState>,
    techs: &Table<TechSession>,
) -> (r: Vec<OrgSummary>)
    ensures
        org_summary_views(r@) == orgs.rows().map_values(
            |row: (Seq<char>, OrgView)| org_summary(row, sessions.rows(), techs.rows()),
        ),
{
    let n: usize = orgs.len();
    let mut list: Vec<OrgSummary> = Vec::new();
    let mut i: usize = 0;
    while i < n
        invariant
            i <= n == orgs.rows().len(),
            list@.len() == i,
            forall|j: int|
                0 <= j < i ==> (#[trigger] list@[j])@ == org_summary(
                    orgs.rows()[j],
                    sessions.rows(),
                    techs.rows(),
                ),
        decreases n - i,
    {
        let id = orgs.key_at(i);
        let org = orgs.value_at(i);
        list.push(
            OrgSummary {
                org_id: id.clone(),
                display_name: org.display_name.clone(),
                is_diesellynk: org.is_diesellynk,
                session_count: count_sessions_of(sessions, id.as_str()),
                active_techs: count_techs_of(techs, id.as_str()),
                password_set: true,
            },
        );
        i += 1;
    }
    assert(org_summary_views(list@) =~= orgs.rows().map_values(
        |row: (Seq<char>, OrgView)| org_summary(row, sessions.rows(), techs.rows()),
    ));
    list
}

/// A session in brief, as administrators see it.
#[derive(Debug)]
pub struct AdminSummary {
    /// Its id.
    pub session_id: String,
    /// The organisation that the truck belongs to.
    pub org_id: String,
    /// How it stands.
    pub status: String,
    /// Whether the driver has asked for service.
    pub service_requested: bool,
    /// What service was asked for.
    pub service_type: String,
    /// Whether the diagnostic adapter is connected.
    pub nexiq_connected: bool,
    /// How many faults the truck reported.
    pub fault_code_count: usize,
    /// What is known of the truck.
    pub truck_info: Option<TruckInfo>,
    /// When service was asked for.
    pub service_request_time: String,
    /// Where the tablet's tunnel is reached.
    pub tablet_ws_url: String,
    /// How many organisations have joined.
    pub connected_tech_count: usize,
}

/// The contents of an [`AdminSummary`].
#[verifier::ext_equal]
pub struct AdminSummaryView {
    /// Its id.
    pub session_id: Seq<char>,
    /// The organisation that the truck belongs to.
    pub org_id: Seq<char>,
    /// How it stands.
    pub status: Seq<char>,
    /// Whether the driver has asked for service.
    pub service_requested: bool,
    /// What service was asked for.
    pub service_type: Seq<char>,
    /// Whether the diagnostic adapter is connected.
    pub nexiq_connected: bool,
    /// How many faults the truck reported.
    pub fault_code_count: nat,
    /// What is known of the truck.
    pub truck_info: Option<TruckView>,
    /// When service was asked for.
    pub service_request_time: Seq<char>,
    /// Where the tablet's tunnel is reached.
    pub tablet_ws_url: Seq<char>,
    /// How many organisations have joined.
    pub connected_tech_count: nat,
}

impl View for AdminSummary {
    type V = AdminSummaryView;

    open spec fn view(&self) -> AdminSummaryView {
        AdminSummaryView {
            session_id: self.session_id@,
            org_id: self.org_id@,
            status: self.status@,
            service_requested: self.service_requested,
            service_type: self.service_type@,
            nexiq_connected: self.nexiq_connected,
            fault_code_count: self.fault_code_count as nat,
            truck_info: truck_view(self.truck_info),
            service_request_time: self.service_request_time@,
            tablet_ws_url: self.tablet_ws_url@,
            connected_tech_count: self.connected_tech_count as nat,
        }
    }
}

/// The contents of a list of sessions in brief.
pub open spec fn admin_summary_views(v: Seq<AdminSummary>) -> Seq<AdminSummaryView> {
    v.map_values(|s: AdminSummary| s@)
}

/// A session in brief, as administrators see it.
pub open spec fn admin_summary(s: SessionView) -> AdminSummaryView {
    AdminSummaryView {
        session_id: s.session_id,
        org_id: s.org_id,
        status: s.status,
        service_requested: s.service_requested,
        service_type: s.service_type,
        nexiq_connected: s.nexiq_connected,
        fault_code_count: s.fault_codes.len(),
        truck_info: s.truck_info,
        service_request_time: s.service_request_time,
        tablet_ws_url: s.tablet_ws_url,
        connected_tech_count: s.connected_techs.len(),
    }
}

/// Lists all sessions.
pub fn admin_all_sessions(_pass: AdminPass, sessions: &Table<SessionState>) -> (r: Vec<
    AdminSummary,
>)
    ensures
        admin_summary_views(r@) == sessions.rows().map_values(
            |row: (Seq<char>, SessionView)| admin_summary(row.1),
        ),
{
    let n: usize = sessions.len();
    let mut list: Vec<AdminSummary> = Vec::new();
    let mut i: usize = 0;
    while i < n
        invariant
            i <= n == sessions.rows().len(),
            list@.len() == i,
            forall|j: int|
                0 <= j < i ==> (#[trigger] list@[j])@ == admin_summary(sessions.rows()[j].1),
        decreases n - i,
    {
        let s = sessions.value_at(i);
        list.push(
            AdminSummary {
                session_id: s.session_id.clone(),
                org_id: s.org_id.clone(),
                status: s.status.clone(),
                service_requested: s.service_requested,
                service_type: s.service_type.clone(),
                nexiq_connected: s.nexiq_connected,
                fault_code_count: s.fault_codes.len(),
                truck_info: copy_truck(&s.truck_info),
                service_request_time: s.service_request_time.clone(),
                tablet_ws_url: s.tablet_ws_url.clone(),
                connected_tech_count: s.connected_techs.len(),
            },
        );
        i += 1;
    }
    assert(admin_summary_views(list@) =~= sessions.rows().map_values(
        |row: (Seq<char>, SessionView)| admin_summary(row.1),
    ));
    list
}

/// The service in numbers.
#[derive(Clone, Copy, Debug)]
pub struct Stats {
    /// Sessions.
    pub total_sessions: usize,
    /// Technicians who are logged in.
    pub active_techs: usize,
    /// Sessions with a call for service.
    pub service_requested: usize,
    /// Sessions with an adapter connected.
    pub nexiq_connected: usize,
    /// Organisations.
    pub total_orgs: usize,
    /// Sessions in the history.
    pub total_history: i64,
    /// Sessions that more than one organisation has joined.
    pub multi_tech_sessions: usize,
}

/// Whether a session has a call for service.
pub open spec fn has_call() -> spec_fn(SessionView) -> bool {
    |s: SessionView| s.service_requested
}

/// Whether a session has an adapter connected.
pub open spec fn has_adapter() -> spec_fn(SessionView) -> bool {
    |s: SessionView| s.nexiq_connected
}

/// Whether more than one organisation has joined a session.
pub open spec fn has_many_techs() -> spec_fn(SessionView) -> bool {
    |s: SessionView| s.connected_techs.len() > 1
}

/// Whether `r` counts these sessions, technicians, organisations and histories.
pub open spec fn counts_of(
    r: Stats,
    sessions: Seq<(Seq<char>, SessionView)>,
    techs: Seq<(Seq<char>, TechView)>,
    orgs: Seq<(Seq<char>, OrgView)>,
    history_count: i64,
) -> bool {
    &&& r.total_sessions == sessions.len()
    &&& r.active_techs == techs.len()
    &&& r.service_requested == tally(sessions, has_call())
    &&& r.nexiq_connected == tally(sessions, has_adapter())
    &&& r.total_orgs == orgs.len()
    &&& r.total_history == history_count
    &&& r.multi_tech_sessions == tally(sessions, has_many_techs())
}

/// Gives the service in numbers.
pub fn admin_stats(
    _pass: AdminPass,
    sessions: &Table<SessionState>,
    techs: &Table<TechSession>,
    orgs: &Table<Org>,
    history_count: i64,
) -> (r: Stats)
    ensures
        counts_of(r, sessions.rows(), techs.rows(), orgs.rows(), history_count),
{
    let n: usize = sessions.len();
    let mut calls: usize = 0;
    let mut adapters: usize = 0;
    let mut many: usize = 0;
    let mut i: usize = 0;
    while i < n
        invariant
            i <= n == sessions.rows().len(),
            calls <= i,
            adapters <= i,
            many <= i,
            calls == tally(sessions.rows().take(i as int), has_call()),
            adapters == tally(sessions.rows().take(i as int), has_adapter()),
            many == tally(sessions.rows().take(i as int), has_many_techs()),
        decreases n - i,
    {
        proof {
            lemma_tally_take(sessions.rows(), has_call(), i as int);
            lemma_tally_take(sessions.rows(), has_adapter(), i as int);
            lemma_tally_take(sessions.rows(), has_many_techs(), i as int);
        }
        let s = sessions.value_at(i);
        assert(s@.connected_techs.len() == s.connected_techs@.len());
        if s.service_requested {
            calls += 1;
        }
        if s.nexiq_connected {
            adapters += 1;
        }
        if s.connected_techs.len() > 1 {
            many += 1;
        }
        i += 1;
    }
    assert(sessions.rows().take(n as int) =~= sessions.rows());
    Stats {
        total_sessions: n,
        active_techs: techs.len(),
        service_requested: calls,
        nexiq_connected: adapters,
        total_orgs: orgs.len(),
        total_history: history_count,
        multi_tech_sessions: many,
    }
}

} // verus!
