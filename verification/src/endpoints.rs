//! The requests whose number is limited: each is counted first, and carried out
//! only where it is let through.

use crate::auth::{self, TechLogin};
#[allow(unused_imports)]
use crate::auth::{admin_login_result, ascii_key_known, org_key, tech_login_result};
#[allow(unused_imports)]
use crate::clock::{session_id_text, token_text};
#[allow(unused_imports)]
use crate::config::setting_or;
use crate::model::{AdminSession, Org, ServiceRequest, SessionState, TechSession};
use crate::rate_limit::{admit_request, Endpoint, RateLimiter};
#[allow(unused_imports)]
use crate::rate_limit::{counted, lets_through, too_often, window_begun};
use crate::registry::{self, CreateSessionResponse};
#[allow(unused_imports)]
use crate::registry::describes;
use crate::reply::Reply;
#[allow(unused_imports)]
use crate::reply::done;
use crate::session;
#[allow(unused_imports)]
use crate::session::{after_service_request, driver_refusal, fresh_session};
use crate::table::Table;
#[allow(unused_imports)]
use crate::text::trimmed;
use vstd::prelude::*;

verus! {

/// Logs a technician in with what was typed, unless the client tries too often.
pub fn tech_login(
    limiter: &mut RateLimiter,
    ip: &str,
    orgs: &Table<Org>,
    techs: &mut Table<TechSession>,
    org_id: &str,
    password: &str,
    token_nanos: u128,
    now: u64,
) -> (r: Result<TechLogin, Reply>)
    requires
        old(limiter).wf(),
        window_begun(old(limiter)@, Endpoint::TechLogin, ip@, now),
        orgs.wf(),
        old(techs).wf(),
    ensures
        final(limiter).wf(),
        final(techs).wf(),
        final(limiter)@ == counted(old(limiter)@, Endpoint::TechLogin, ip@, now),
        if lets_through(old(limiter)@, Endpoint::TechLogin, ip@, now) {
            &&& tech_login_result(
                r,
                orgs@,
                old(techs)@,
                final(techs)@,
                org_key(org_id@),
                trimmed(password@),
                token_nanos,
                now,
            )
            &&& ascii_key_known(org_id@)
        } else {
            &&& r matches Err(e) && e@ == too_often(Endpoint::TechLogin)
            &&& final(techs)@ == old(techs)@
        },
{
    match admit_request(limiter, Endpoint::TechLogin, ip, now) {
        Some(refusal) => Err(refusal),
        None => auth::tech_login(orgs, techs, org_id, password, token_nanos, now),
    }
}

/// Logs an administrator in with what was typed, unless the client tries too
/// often.
pub fn admin_login(
    limiter: &mut RateLimiter,
    ip: &str,
    admins: &mut Table<AdminSession>,
    admin_user: &str,
    admin_pass: &str,
    username: &str,
    password: &str,
    token_nanos: u128,
    now: u64,
) -> (r: Result<String, Reply>)
    requires
        old(limiter).wf(),
        window_begun(old(limiter)@, Endpoint::AdminLogin, ip@, now),
        old(admins).wf(),
    ensures
        final(limiter).wf(),
        final(admins).wf(),
        final(limiter)@ == counted(old(limiter)@, Endpoint::AdminLogin, ip@, now),
        if lets_through(old(limiter)@, Endpoint::AdminLogin, ip@, now) {
            admin_login_result(
                r,
                old(admins)@,
                final(admins)@,
                trimmed(username@) == admin_user@ && trimmed(password@) == admin_pass@,
                token_nanos,
                now,
            )
        } else {
            &&& r matches Err(e) && e@ == too_often(Endpoint::AdminLogin)
            &&& final(admins)@ == old(admins)@
        },
{
    match admit_request(limiter, Endpoint::AdminLogin, ip, now) {
        Some(refusal) => Err(refusal),
        None => auth::admin_login(
            admins,
            admin_user,
            admin_pass,
            username,
            password,
            token_nanos,
            now,
        ),
    }
}

/// Opens a session for the organisation that the driver named, unless the client
/// opens too many.
pub fn create_session(
    limiter: &mut RateLimiter,
    ip: &str,
    sessions: &mut Table<SessionState>,
    org_id: Option<String>,
    id_millis: u128,
    driver_nanos: u128,
    tech_nanos: u128,
    now: u64,
) -> (r: Result<CreateSessionResponse, Reply>)
    requires
        old(limiter).wf(),
        window_begun(old(limiter)@, Endpoint::CreateSession, ip@, now),
        old(sessions).wf(),
    ensures
        final(limiter).wf(),
        final(sessions).wf(),
        final(limiter)@ == counted(old(limiter)@, Endpoint::CreateSession, ip@, now),
        if lets_through(old(limiter)@, Endpoint::CreateSession, ip@, now) {
            let s = fresh_session(
                session_id_text(id_millis as nat),
                org_key(setting_or(org_id, "unknown"@)),
                token_text(driver_nanos),
                token_text(tech_nanos),
                now,
            );
            &&& r matches Ok(opened) && describes(opened, s)
            &&& final(sessions)@ == old(sessions)@.insert(s.session_id, s)
            &&& ascii_key_known(setting_or(org_id, "unknown"@))
        } else {
            &&& r matches Err(e) && e@ == too_often(Endpoint::CreateSession)
            &&& final(sessions)@ == old(sessions)@
        },
{
    match admit_request(limiter, Endpoint::CreateSession, ip, now) {
        Some(refusal) => Err(refusal),
        None => Ok(
            registry::create_session(sessions, org_id, id_millis, driver_nanos, tech_nanos, now),
        ),
    }
}

/// Records the driver's call for service, unless the client calls too often.
pub fn service_request(
    limiter: &mut RateLimiter,
    ip: &str,
    sessions: &mut Table<SessionState>,
    id: &str,
    req: &ServiceRequest,
    now: u64,
) -> (r: Reply)
    requires
        old(limiter).wf(),
        window_begun(old(limiter)@, Endpoint::ServiceRequest, ip@, now),
        old(sessions).wf(),
    ensures
        final(limiter).wf(),
        final(sessions).wf(),
        final(limiter)@ == counted(old(limiter)@, Endpoint::ServiceRequest, ip@, now),
        if !lets_through(old(limiter)@, Endpoint::ServiceRequest, ip@, now) {
            &&& r@ == too_often(Endpoint::ServiceRequest)
            &&& final(sessions)@ == old(sessions)@
        } else {
            match driver_refusal(old(sessions)@, id@, req.driver_token@) {
                Some(e) => r@ == e && final(sessions)@ == old(sessions)@,
                None => r@ == done("Service request sent"@) && final(sessions)@ == old(
                    sessions,
                )@.insert(id@, after_service_request(old(sessions)@[id@], *req, now)),
            }
        },
{
    match admit_request(limiter, Endpoint::ServiceRequest, ip, now) {
        Some(refusal) => refusal,
        None => session::service_request(sessions, id, req, now),
    }
}

} // verus!
