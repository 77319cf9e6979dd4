//! Who is let in, and how often.

#[allow(unused_imports)]
use crate::auth::{
    admin_live, admin_login_result, admin_token_valid, org_key, password_fits, tech_live,
    tech_login_result, tech_token_valid, tech_touched, TechLogin,
};
#[allow(unused_imports)]
use crate::clock::token_text;
#[allow(unused_imports)]
use crate::letter_case::lowercase;
#[allow(unused_imports)]
use crate::model::{AdminView, OrgView, TechView};
#[allow(unused_imports)]
use crate::rate_limit::{
    admits, bucket_after, bucket_found, counted, endpoint_name, lets_through, limiter_after,
    rate_key, too_often, young, Bucket, Endpoint,
};
#[allow(unused_imports)]
use crate::reply::{Reply, Status};
#[allow(unused_imports)]
use crate::table::kept;
#[allow(unused_imports)]
use crate::text::trimmed;
use vstd::prelude::*;
use vstd::string::*;

verus! {

/// A technician's token counts exactly where it is known and its technician was
/// active less than eight hours ago, whoever the technician is.
pub proof fn technician_counts_for_eight_hours(
    m: Map<Seq<char>, TechView>,
    token: Seq<char>,
    now: u64,
)
    ensures
        tech_token_valid(m, token, now) <==> m.contains_key(token) && now < m[token].last_seen
            + 28800,
{
}

/// An administrator's token counts exactly where it is known and was given out
/// less than a day ago.
pub proof fn administrator_counts_for_a_day(
    m: Map<Seq<char>, AdminView>,
    token: Seq<char>,
    now: u64,
)
    ensures
        admin_token_valid(m, token, now) <==> m.contains_key(token) && now < m[token].created_at
            + 86400,
{
}

/// Noting that a technician was active changes the time of the last activity and
/// nothing else of the technician, and nothing of anyone else.
pub proof fn activity_changes_the_time_only(
    m: Map<Seq<char>, TechView>,
    token: Seq<char>,
    other: Seq<char>,
    now: u64,
)
    requires
        m.contains_key(token),
    ensures
        ({
            let n = tech_touched(m, token, now);
            &&& n.contains_key(token)
            &&& n[token].last_seen == now
            &&& n[token].tech_auth_token == m[token].tech_auth_token
            &&& n[token].org_id == m[token].org_id
            &&& n[token].is_diesellynk == m[token].is_diesellynk
            &&& n[token].created_at == m[token].created_at
            &&& other != token ==> n.contains_key(other) == m.contains_key(other) && n[other]
                == m[other]
        }),
{
}

/// A login succeeds exactly where the organisation is known and the password is
/// its password, whatever else is known of it.
pub proof fn login_needs_the_password(
    orgs: Map<Seq<char>, OrgView>,
    org_id: Seq<char>,
    password: Seq<char>,
)
    ensures
        password_fits(orgs, org_id, password) <==> orgs.contains_key(org_id)
            && orgs[org_id].password == password,
{
}

/// A technician who logs in is known from then on under the token that is handed
/// out, as of the organisation that logged in, and as the operator's exactly where
/// that organisation is the operator; one who does not is told so, and nothing
/// changes; and nobody else is touched.
pub proof fn login_makes_the_technician_known(
    r: Result<TechLogin, Reply>,
    orgs: Map<Seq<char>, OrgView>,
    before: Map<Seq<char>, TechView>,
    after: Map<Seq<char>, TechView>,
    org_id: Seq<char>,
    password: Seq<char>,
    token_nanos: u128,
    now: u64,
    other: Seq<char>,
)
    requires
        tech_login_result(r, orgs, before, after, org_id, password, token_nanos, now),
    ensures
        r is Ok <==> orgs.contains_key(org_id) && orgs[org_id].password == password,
        r matches Ok(l) ==> {
            let t = l.tech_auth_token@;
            &&& t == token_text(token_nanos)
            &&& l.org_id@ == org_id
            &&& l.is_diesellynk == orgs[org_id].is_diesellynk
            &&& after.contains_key(t)
            &&& after[t].tech_auth_token == t
            &&& after[t].org_id == org_id
            &&& after[t].is_diesellynk == orgs[org_id].is_diesellynk
            &&& after[t].created_at == now && after[t].last_seen == now
            &&& other != t ==> after.contains_key(other) == before.contains_key(other)
                && after[other] == before[other]
        },
        r matches Err(e) ==> {
            &&& after == before
            &&& e@.status == Status::Unauthorized && !e@.ok
            &&& e@.message == "Invalid org ID or password"@
        },
{
}

/// An administrator who logs in is known from then on under the token that is
/// handed out; one who does not is told so, and nothing changes; and nobody else is
/// touched.
pub proof fn login_makes_the_administrator_known(
    r: Result<String, Reply>,
    before: Map<Seq<char>, AdminView>,
    after: Map<Seq<char>, AdminView>,
    fits: bool,
    token_nanos: u128,
    now: u64,
    other: Seq<char>,
)
    requires
        admin_login_result(r, before, after, fits, token_nanos, now),
    ensures
        r is Ok <==> fits,
        r matches Ok(t) ==> {
            &&& t@ == token_text(token_nanos)
            &&& after.contains_key(t@)
            &&& after[t@].token == t@ && after[t@].created_at == now
            &&& other != t@ ==> after.contains_key(other) == before.contains_key(other)
                && after[other] == before[other]
        },
        r matches Err(e) ==> {
            &&& after == before
            &&& e@.status == Status::Unauthorized && !e@.ok
            &&& e@.message == "Invalid credentials"@
        },
{
}

/// An organisation is looked up by its trimmed id in small letters: ids that
/// differ in white space around them only are looked up alike.
pub proof fn white_space_around_an_id_does_not_matter(a: Seq<char>, b: Seq<char>)
    ensures
        org_key(a) == lowercase(trimmed(a)),
        trimmed(a) == trimmed(b) ==> org_key(a) == org_key(b),
{
}

/// What is kept of a table is exactly what passes the test, as it was.
pub proof fn keeping_drops_what_fails<A>(
    m: Map<Seq<char>, A>,
    p: spec_fn(A) -> bool,
    k: Seq<char>,
)
    ensures
        kept(m, p).contains_key(k) <==> m.contains_key(k) && p(m[k]),
        kept(m, p).contains_key(k) ==> kept(m, p)[k] == m[k],
{
}

/// Clean-up keeps exactly the technicians who count and the administrators who
/// count, and the counts whose windows began less than an hour ago.
pub proof fn clean_up_keeps_what_counts(
    techs: Map<Seq<char>, TechView>,
    admins: Map<Seq<char>, AdminView>,
    buckets: Map<Seq<char>, Bucket>,
    k: Seq<char>,
    now: u64,
)
    ensures
        kept(techs, tech_live(now)).contains_key(k) <==> techs.contains_key(k) && now
            < techs[k].last_seen + 28800,
        kept(admins, admin_live(now)).contains_key(k) <==> admins.contains_key(k) && now
            < admins[k].created_at + 86400,
        kept(buckets, young(now)).contains_key(k) <==> buckets.contains_key(k) && now
            < buckets[k].window_start + 3600,
{
}

/// A request within a window is let through exactly where fewer than the limit
/// were, and only then counted; the window stays.
pub proof fn requests_in_a_window_are_counted(b: Bucket, limit: u32, window: u64, now: u64)
    requires
        now - b.window_start < window,
    ensures
        admits(b, limit, window, now) <==> b.hits < limit,
        bucket_after(b, limit, window, now).window_start == b.window_start,
        bucket_after(b, limit, window, now).hits == if b.hits < limit {
            b.hits + 1
        } else {
            b.hits as int
        },
{
}

/// A request behind the end of a window is let through, and is the first of a
/// window that begins with it.
pub proof fn window_begins_anew(b: Bucket, limit: u32, window: u64, now: u64)
    requires
        now - b.window_start >= window,
    ensures
        admits(b, limit, window, now),
        bucket_after(b, limit, window, now).window_start == now,
        bucket_after(b, limit, window, now).hits == 1,
{
}

/// A client that has not been counted begins with nothing, now; one that has goes
/// on from where it is.
pub proof fn new_clients_begin_with_nothing(
    m: Map<Seq<char>, Bucket>,
    key: Seq<char>,
    limit: u32,
    window: u64,
    now: u64,
)
    ensures
        !m.contains_key(key) ==> bucket_found(m, key, now).hits == 0 && bucket_found(
            m,
            key,
            now,
        ).window_start == now,
        m.contains_key(key) ==> bucket_found(m, key, now) == m[key],
        limiter_after(m, key, limit, window, now).contains_key(key),
        limiter_after(m, key, limit, window, now)[key] == bucket_after(
            bucket_found(m, key, now),
            limit,
            window,
            now,
        ),
{
}

/// In a minute a client may try ten technician logins, open thirty sessions, make
/// five calls for service and try five administrator logins, each counted under
/// the client's address.
pub proof fn limits_are_per_minute_and_client(
    m: Map<Seq<char>, Bucket>,
    e: Endpoint,
    ip: Seq<char>,
    now: u64,
)
    ensures
        ({
            let most: int = match e {
                Endpoint::TechLogin => 10,
                Endpoint::CreateSession => 30,
                Endpoint::ServiceRequest => 5,
                Endpoint::AdminLogin => 5,
            };
            let key = ip + ":"@ + match e {
                Endpoint::TechLogin => "tech-login"@,
                Endpoint::CreateSession => "create-session"@,
                Endpoint::ServiceRequest => "service-request"@,
                Endpoint::AdminLogin => "admin-login"@,
            };
            &&& !m.contains_key(key) ==> lets_through(m, e, ip, now)
            &&& m.contains_key(key) ==> (lets_through(m, e, ip, now) <==> now
                - m[key].window_start >= 60 || m[key].hits < most)
            &&& counted(m, e, ip, now).contains_key(key)
            &&& counted(m, e, ip, now).remove(key) == m.remove(key)
            &&& !m.contains_key(key) || now - m[key].window_start >= 60 ==> counted(
                m,
                e,
                ip,
                now,
            )[key] == (Bucket { hits: 1, window_start: now })
            &&& m.contains_key(key) && now - m[key].window_start < 60 ==> counted(
                m,
                e,
                ip,
                now,
            )[key].window_start == m[key].window_start && counted(m, e, ip, now)[key].hits
                == m[key].hits + if m[key].hits < most {
                1int
            } else {
                0
            }
        }),
{
    assert(counted(m, e, ip, now).remove(rate_key(ip, endpoint_name(e))) =~= m.remove(
        rate_key(ip, endpoint_name(e)),
    ));
}

/// A client that asks too often is told so, in the words of the endpoint.
pub proof fn asking_too_often_is_said(e: Endpoint)
    ensures
        too_often(e).status == Status::TooManyRequests,
        !too_often(e).ok,
        too_often(e).message == match e {
            Endpoint::TechLogin => "Too many login attempts -- please wait"@,
            Endpoint::CreateSession => "Too many session requests"@,
            Endpoint::ServiceRequest => "Too many requests"@,
            Endpoint::AdminLogin => "Too many attempts"@,
        },
{
}

} // verus!
