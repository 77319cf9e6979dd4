//! Logging in, and how long a login lasts.

use crate::clock::token_at;
#[allow(unused_imports)]
use crate::clock::token_text;
#[allow(unused_imports)]
use crate::letter_case::{ascii_lowercase, lowercase};
use crate::model::{AdminSession, Org, TechSession};
#[allow(unused_imports)]
use crate::model::{AdminView, OrgView, TechView};
use crate::reply::{refuse, Reply, Status};
#[allow(unused_imports)]
use crate::reply::refused;
use crate::table::Table;
#[allow(unused_imports)]
use crate::table::{kept, lemma_row};
use crate::text::{same, trim};
#[allow(unused_imports)]
use crate::text::trimmed;
use vstd::prelude::*;
use vstd::string::*;
#[allow(unused_imports)]
use vstd::utf8::is_ascii_chars;

verus! {

/// How long a technician stays logged in without doing anything, in seconds.
pub const TECH_IDLE_LIMIT: u64 = 28800;

/// How long an administrator stays logged in, in seconds.
pub const ADMIN_LIFE: u64 = 86400;

/// Whether a technician's login still counts.
pub open spec fn tech_live(now: u64) -> spec_fn(TechView) -> bool {
    |t: TechView| now - t.last_seen < TECH_IDLE_LIMIT
}

/// Whether an administrator's login still counts.
pub open spec fn admin_live(now: u64) -> spec_fn(AdminView) -> bool {
    |a: AdminView| now - a.created_at < ADMIN_LIFE
}

/// Whether a token belongs to a technician whose login still counts.
pub open spec fn tech_token_valid(
    m: Map<Seq<char>, TechView>,
    token: Seq<char>,
    now: u64,
) -> bool {
    m.contains_key(token) && tech_live(now)(m[token])
}

/// Whether a token belongs to an administrator whose login still counts.
pub open spec fn admin_token_valid(
    m: Map<Seq<char>, AdminView>,
    token: Seq<char>,
    now: u64,
) -> bool {
    m.contains_key(token) && admin_live(now)(m[token])
}

/// The technician under the token, if any, was not seen later than `now`.
pub open spec fn tech_seen_by(m: Map<Seq<char>, TechView>, token: Seq<char>, now: u64) -> bool {
    m.contains_key(token) ==> m[token].last_seen <= now
}

/// The administrator under the token, if any, did not log in later than `now`.
pub open spec fn admin_came_by(m: Map<Seq<char>, AdminView>, token: Seq<char>, now: u64) -> bool {
    m.contains_key(token) ==> m[token].created_at <= now
}

/// No technician was seen later than `now`.
pub open spec fn all_techs_seen_by(m: Map<Seq<char>, TechView>, now: u64) -> bool {
    forall|k: Seq<char>| #[trigger] m.contains_key(k) ==> m[k].last_seen <= now
}

/// No administrator logged in later than `now`.
pub open spec fn all_admins_came_by(m: Map<Seq<char>, AdminView>, now: u64) -> bool {
    forall|k: Seq<char>| #[trigger] m.contains_key(k) ==> m[k].created_at <= now
}

/// Whether the clock has not fallen behind the technician under the token.
pub fn tech_clock_reaches(techs: &Table<TechSession>, token: &str, now: u64) -> (r: bool)
    requires
        techs.wf(),
    ensures
        r == tech_seen_by(techs@, token@, now),
{
    match techs.get(token) {
        Some(t) => t.last_seen <= now,
        None => true,
    }
}

/// Whether the clock has not fallen behind the administrator under the token.
pub fn admin_clock_reaches(admins: &Table<AdminSession>, token: &str, now: u64) -> (r: bool)
    requires
        admins.wf(),
    ensures
        r == admin_came_by(admins@, token@, now),
{
    match admins.get(token) {
        Some(a) => a.created_at <= now,
        None => true,
    }
}

/// Whether the clock has not fallen behind any technician.
pub fn tech_clock_reaches_all(techs: &Table<TechSession>, now: u64) -> (r: bool)
    requires
        techs.wf(),
    ensures
        r == all_techs_seen_by(techs@, now),
{
    let n: usize = techs.len();
    let mut i: usize = 0;
    while i < n
        invariant
            i <= n == techs.rows().len(),
            techs.wf(),
            forall|j: int| 0 <= j < i ==> (#[trigger] techs.rows()[j]).1.last_seen <= now,
        decreases n - i,
    {
        if techs.value_at(i).last_seen > now {
            proof {
                lemma_row(techs.rows(), i as int);
                assert(techs@.contains_key(techs.rows()[i as int].0));
            }
            return false;
        }
        i += 1;
    }
    true
}

/// Whether the clock has not fallen behind any administrator.
pub fn admin_clock_reaches_all(admins: &Table<AdminSession>, now: u64) -> (r: bool)
    requires
        admins.wf(),
    ensures
        r == all_admins_came_by(admins@, now),
{
    let n: usize = admins.len();
    let mut i: usize = 0;
    while i < n
        invariant
            i <= n == admins.rows().len(),
            admins.wf(),
            forall|j: int| 0 <= j < i ==> (#[trigger] admins.rows()[j]).1.created_at <= now,
        decreases n - i,
    {
        if admins.value_at(i).created_at > now {
            proof {
                lemma_row(admins.rows(), i as int);
                assert(admins@.contains_key(admins.rows()[i as int].0));
            }
            return false;
        }
        i += 1;
    }
    true
}

fn is_tech_live(t: &TechSession, now: u64) -> (r: bool)
    requires
        t.last_seen <= now,
    ensures
        r == tech_live(now)(t@),
{
    now - t.last_seen < TECH_IDLE_LIMIT
}

fn is_admin_live(a: &AdminSession, now: u64) -> (r: bool)
    requires
        a.created_at <= now,
    ensures
        r == admin_live(now)(a@),
{
    now - a.created_at < ADMIN_LIFE
}

/// The technician whose token this is, while the login counts.
pub fn validate_tech_token(techs: &Table<TechSession>, token: &str, now: u64) -> (r: Option<
    TechSession,
>)
    requires
        techs.wf(),
        tech_seen_by(techs@, token@, now),
    ensures
        match r {
            Some(t) => tech_token_valid(techs@, token@, now) && t@ == techs@[token@],
            None => !tech_token_valid(techs@, token@, now),
        },
{
    match techs.get(token) {
        Some(t) => {
            if is_tech_live(t, now) {
                Some(t.clone())
            } else {
                None
            }
        },
        None => None,
    }
}

/// Whether the token is an administrator's and the login counts.
pub fn validate_admin_token(admins: &Table<AdminSession>, token: &str, now: u64) -> (r: bool)
    requires
        admins.wf(),
        admin_came_by(admins@, token@, now),
    ensures
        r == admin_token_valid(admins@, token@, now),
{
    match admins.get(token) {
        Some(a) => is_admin_live(a, now),
        None => false,
    }
}

/// Technicians after the one under the token was seen.
pub open spec fn tech_touched(
    m: Map<Seq<char>, TechView>,
    token: Seq<char>,
    now: u64,
) -> Map<Seq<char>, TechView> {
    m.insert(token, TechView { last_seen: now, ..m[token] })
}

/// Lets a technician in, and notes that the technician was seen. Gives the
/// record as it was before.
pub fn admit_tech(techs: &mut Table<TechSession>, token: Option<&str>, now: u64) -> (r: Option<
    TechSession,
>)
    requires
        old(techs).wf(),
        token matches Some(t) ==> tech_seen_by(old(techs)@, t@, now),
    ensures
        final(techs).wf(),
        match r {
            Some(t) => {
                &&& token is Some
                &&& tech_token_valid(old(techs)@, token->0@, now)
                &&& t@ == old(techs)@[token->0@]
                &&& final(techs)@ == tech_touched(old(techs)@, token->0@, now)
            },
            None => {
                &&& token matches Some(t) ==> !tech_token_valid(old(techs)@, t@, now)
                &&& final(techs)@ == old(techs)@
            },
        },
{
    let token = match token {
        Some(t) => t,
        None => return None,
    };
    let tech = match validate_tech_token(techs, token, now) {
        Some(t) => t,
        None => return None,
    };
    match techs.get_mut(token) {
        Some(t) => {
            t.last_seen = now;
        },
        None => {},
    }
    Some(tech)
}

/// Drops the technicians whose logins no longer count.
pub fn purge_tech_sessions(techs: &mut Table<TechSession>, now: u64)
    requires
        old(techs).wf(),
        all_techs_seen_by(old(techs)@, now),
    ensures
        final(techs).wf(),
        final(techs)@ == kept(old(techs)@, tech_live(now)),
{
    let test = |t: &TechSession| -> (keep: bool)
        requires
            now >= t.last_seen,
        ensures
            keep == tech_live(now)(t@),
    {
        is_tech_live(t, now)
    };
    techs.retain(test, Ghost(tech_live(now)));
}

/// Drops the administrators whose logins no longer count.
pub fn purge_admin_sessions(admins: &mut Table<AdminSession>, now: u64)
    requires
        old(admins).wf(),
        all_admins_came_by(old(admins)@, now),
    ensures
        final(admins).wf(),
        final(admins)@ == kept(old(admins)@, admin_live(now)),
{
    let test = |a: &AdminSession| -> (keep: bool)
        requires
            now >= a.created_at,
        ensures
            keep == admin_live(now)(a@),
    {
        is_admin_live(a, now)
    };
    admins.retain(test, Ghost(admin_live(now)));
}

/// A successful login of a technician.
#[derive(Debug)]
pub struct TechLogin {
    /// What the technician shows from now on.
    pub tech_auth_token: String,
    /// The technician's organisation.
    pub org_id: String,
    /// Whether it is the operator of the service.
    pub is_diesellynk: bool,
}

/// Whether an organisation logs in with this password.
pub open spec fn password_fits(
    orgs: Map<Seq<char>, OrgView>,
    org_id: Seq<char>,
    password: Seq<char>,
) -> bool {
    orgs.contains_key(org_id) && orgs[org_id].password == password
}

/// What comes of a technician's login under an organisation id and with a
/// password in the spelling to compare: where the password fits, a technician
/// more; otherwise a refusal, and nothing changes.
pub open spec fn tech_login_result(
    r: Result<TechLogin, Reply>,
    orgs: Map<Seq<char>, OrgView>,
    before: Map<Seq<char>, TechView>,
    after: Map<Seq<char>, TechView>,
    org_id: Seq<char>,
    password: Seq<char>,
    token_nanos: u128,
    now: u64,
) -> bool {
    match r {
        Ok(l) => {
            let token = token_text(token_nanos);
            let is_diesellynk = orgs[org_id].is_diesellynk;
            &&& password_fits(orgs, org_id, password)
            &&& l.tech_auth_token@ == token
            &&& l.org_id@ == org_id
            &&& l.is_diesellynk == is_diesellynk
            &&& after == before.insert(
                token,
                TechView {
                    tech_auth_token: token,
                    org_id,
                    is_diesellynk,
                    created_at: now,
                    last_seen: now,
                },
            )
        },
        Err(e) => {
            &&& !password_fits(orgs, org_id, password)
            &&& e@ == refused(Status::Unauthorized, "Invalid org ID or password"@)
            &&& after == before
        },
    }
}

/// Logs a technician in, under an organisation id and with a password in the
/// spelling to compare. The token is made at the given nanosecond.
pub fn log_tech_in(
    orgs: &Table<Org>,
    techs: &mut Table<TechSession>,
    org_id: String,
    password: &str,
    token_nanos: u128,
    now: u64,
) -> (r: Result<TechLogin, Reply>)
    requires
        orgs.wf(),
        old(techs).wf(),
    ensures
        final(techs).wf(),
        tech_login_result(
            r,
            orgs@,
            old(techs)@,
            final(techs)@,
            org_id@,
            password@,
            token_nanos,
            now,
        ),
{
    match orgs.get(org_id.as_str()) {
        Some(org) => {
            if same(org.password.as_str(), password) {
                let token = token_at(token_nanos);
                let tech = TechSession {
                    tech_auth_token: token.clone(),
                    org_id: org_id.clone(),
                    is_diesellynk: org.is_diesellynk,
                    created_at: now,
                    last_seen: now,
                };
                techs.insert(token.clone(), tech);
                return Ok(
                    TechLogin { tech_auth_token: token, org_id, is_diesellynk: org.is_diesellynk },
                );
            }
        },
        None => {},
    }
    Err(refuse(Status::Unauthorized, "Invalid org ID or password"))
}

/// An organisation id as it is looked up: trimmed, in small letters.
pub open spec fn org_key(org_id: Seq<char>) -> Seq<char> {
    lowercase(trimmed(org_id))
}

/// Of an ASCII id, what is looked up is the trimmed id with its letters made
/// small.
pub open spec fn ascii_key_known(org_id: Seq<char>) -> bool {
    is_ascii_chars(trimmed(org_id)) ==> org_key(org_id) == ascii_lowercase(trimmed(org_id))
}

/// An organisation id as it is looked up.
pub fn org_key_of(org_id: &str) -> (r: String)
    ensures
        r@ == org_key(org_id@),
        ascii_key_known(org_id@),
{
    trim(org_id).as_str().to_lowercase()
}

/// Logs a technician in with what was typed. The token is made at the given
/// nanosecond.
pub fn tech_login(
    orgs: &Table<Org>,
    techs: &mut Table<TechSession>,
    org_id: &str,
    password: &str,
    token_nanos: u128,
    now: u64,
) -> (r: Result<TechLogin, Reply>)
    requires
        orgs.wf(),
        old(techs).wf(),
    ensures
        final(techs).wf(),
        tech_login_result(
            r,
            orgs@,
            old(techs)@,
            final(techs)@,
            org_key(org_id@),
            trimmed(password@),
            token_nanos,
            now,
        ),
        ascii_key_known(org_id@),
{
    let key = org_key_of(org_id);
    let typed = trim(password);
    log_tech_in(orgs, techs, key, typed.as_str(), token_nanos, now)
}

/// What comes of an administrator's login with what was typed, trimmed: where
/// name and password fit, an administrator more; otherwise a refusal, and nothing
/// changes.
pub open spec fn admin_login_result(
    r: Result<String, Reply>,
    before: Map<Seq<char>, AdminView>,
    after: Map<Seq<char>, AdminView>,
    fits: bool,
    token_nanos: u128,
    now: u64,
) -> bool {
    match r {
        Ok(t) => {
            &&& fits
            &&& t@ == token_text(token_nanos)
            &&& after == before.insert(t@, AdminView { token: t@, created_at: now })
        },
        Err(e) => {
            &&& !fits
            &&& e@ == refused(Status::Unauthorized, "Invalid credentials"@)
            &&& after == before
        },
    }
}

/// Logs an administrator in with what was typed, trimmed. Gives the token,
/// which is made at the given nanosecond.
pub fn admin_login(
    admins: &mut Table<AdminSession>,
    admin_user: &str,
    admin_pass: &str,
    username: &str,
    password: &str,
    token_nanos: u128,
    now: u64,
) -> (r: Result<String, Reply>)
    requires
        old(admins).wf(),
    ensures
        final(admins).wf(),
        admin_login_result(
            r,
            old(admins)@,
            final(admins)@,
            trimmed(username@) == admin_user@ && trimmed(password@) == admin_pass@,
            token_nanos,
            now,
        ),
{
    if same(trim(username).as_str(), admin_user) && same(trim(password).as_str(), admin_pass) {
        let token = token_at(token_nanos);
        admins.insert(token.clone(), AdminSession { token: token.clone(), created_at: now });
        Ok(token)
    } else {
        Err(refuse(Status::Unauthorized, "Invalid credentials"))
    }
}

/// Shows that an administrator was let in, for one request. Only
/// [`require_admin`] makes one.
pub struct AdminPass {
    token: String,
}

impl View for AdminPass {
    type V = Seq<char>;

    closed spec fn view(&self) -> Seq<char> {
        self.token@
    }
}

/// Lets an administrator in: a token must be there, be an administrator's and
/// still count.
pub fn require_admin(admins: &Table<AdminSession>, token: Option<&str>, now: u64) -> (r: Result<
    AdminPass,
    Reply,
>)
    requires
        admins.wf(),
        token matches Some(t) ==> admin_came_by(admins@, t@, now),
    ensures
        match r {
            Ok(pass) => {
                &&& token is Some
                &&& pass@ == token->0@
                &&& admin_token_valid(admins@, token->0@, now)
            },
            Err(e) => {
                &&& token matches Some(t) ==> !admin_token_valid(admins@, t@, now)
                &&& e@ == refused(Status::Unauthorized, "Unauthorized"@)
            },
        },
{
    match token {
        Some(t) => {
            if validate_admin_token(admins, t, now) {
                return Ok(AdminPass { token: t.to_owned() });
            }
        },
        None => {},
    }
    Err(refuse(Status::Unauthorized, "Unauthorized"))
}

/// Dropping the technicians whose logins no longer count changes no answer.
pub proof fn tech_purge_changes_no_answer(m: Map<Seq<char>, TechView>, token: Seq<char>, now: u64)
    ensures
        tech_token_valid(kept(m, tech_live(now)), token, now) == tech_token_valid(m, token, now),
        tech_token_valid(m, token, now) ==> kept(m, tech_live(now))[token] == m[token],
{
}

/// Dropping the administrators whose logins no longer count changes no answer.
pub proof fn admin_purge_changes_no_answer(
    m: Map<Seq<char>, AdminView>,
    token: Seq<char>,
    now: u64,
)
    ensures
        admin_token_valid(kept(m, admin_live(now)), token, now) == admin_token_valid(m, token, now),
        admin_token_valid(m, token, now) ==> kept(m, admin_live(now))[token] == m[token],
{
}

/// A login lets the technician in for the idle limit from then, and no longer;
/// nobody else is let in or kept out by it.
pub proof fn login_lets_the_technician_in(
    m: Map<Seq<char>, TechView>,
    t: TechView,
    other: Seq<char>,
    later: u64,
)
    requires
        t.last_seen <= later,
    ensures
        tech_token_valid(m.insert(t.tech_auth_token, t), t.tech_auth_token, later) == (later
            - t.last_seen < TECH_IDLE_LIMIT),
        other != t.tech_auth_token ==> tech_token_valid(
            m.insert(t.tech_auth_token, t),
            other,
            later,
        ) == tech_token_valid(m, other, later),
{
}

/// A technician seen at `seen` stays logged in for the idle limit from then,
/// and no longer; other technicians are not touched.
pub proof fn activity_prolongs_a_login(
    m: Map<Seq<char>, TechView>,
    token: Seq<char>,
    other: Seq<char>,
    seen: u64,
    later: u64,
)
    requires
        m.contains_key(token),
        seen <= later,
    ensures
        tech_token_valid(tech_touched(m, token, seen), token, later) == (later - seen
            < TECH_IDLE_LIMIT),
        other != token ==> tech_token_valid(tech_touched(m, token, seen), other, later)
            == tech_token_valid(m, other, later),
{
}

/// An administrator stays logged in for a day, and no longer.
pub proof fn admin_login_lasts_a_day(
    m: Map<Seq<char>, AdminView>,
    token: Seq<char>,
    came: u64,
    later: u64,
)
    requires
        came <= later,
    ensures
        admin_token_valid(m.insert(token, AdminView { token, created_at: came }), token, later)
            == (later - came < ADMIN_LIFE),
{
}

} // verus!
