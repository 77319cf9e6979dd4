//! How many requests a client may make in a window of time.

use crate::reply::{refuse, Reply, Status};
#[allow(unused_imports)]
use crate::reply::{refused, ReplyView};
use crate::table::Table;
#[allow(unused_imports)]
use crate::table::{kept, lemma_row};
use vstd::prelude::*;
use vstd::string::*;

verus! {

/// How long a bucket is kept after its window began, in seconds.
pub const BUCKET_LIFE: u64 = 3600;

/// The requests counted under one key.
#[derive(Clone, Copy, Debug)]
pub struct Bucket {
    /// Requests let through since the window began.
    pub hits: u32,
    /// When the window began, in seconds.
    pub window_start: u64,
}

impl View for Bucket {
    type V = Bucket;

    open spec fn view(&self) -> Bucket {
        *self
    }
}

/// The buckets of all clients and endpoints.
pub struct RateLimiter {
    buckets: Table<Bucket>,
}

/// The bucket that a request under `key` finds: a new one begins at `now`.
pub open spec fn bucket_found(m: Map<Seq<char>, Bucket>, key: Seq<char>, now: u64) -> Bucket {
    if m.contains_key(key) {
        m[key]
    } else {
        Bucket { hits: 0, window_start: now }
    }
}

/// Whether a request is let through.
pub open spec fn admits(b: Bucket, limit: u32, window_secs: u64, now: u64) -> bool {
    now - b.window_start >= window_secs || b.hits < limit
}

/// The bucket after a request: a window that has run out begins anew with this
/// request, a request within it is counted, and a refused one changes nothing.
pub open spec fn bucket_after(b: Bucket, limit: u32, window_secs: u64, now: u64) -> Bucket {
    if now - b.window_start >= window_secs {
        Bucket { hits: 1, window_start: now }
    } else if b.hits < limit {
        Bucket { hits: (b.hits + 1) as u32, ..b }
    } else {
        b
    }
}

/// The buckets after a request under `key`.
pub open spec fn limiter_after(
    m: Map<Seq<char>, Bucket>,
    key: Seq<char>,
    limit: u32,
    window_secs: u64,
    now: u64,
) -> Map<Seq<char>, Bucket> {
    m.insert(key, bucket_after(bucket_found(m, key, now), limit, window_secs, now))
}

/// Whether a bucket is young enough to be kept.
pub open spec fn young(now: u64) -> spec_fn(Bucket) -> bool {
    |b: Bucket| now - b.window_start < BUCKET_LIFE
}

fn is_young(b: &Bucket, now: u64) -> (r: bool)
    requires
        b.window_start <= now,
    ensures
        r == young(now)(*b),
{
    now - b.window_start < BUCKET_LIFE
}

/// Every window began at `now` or before.
pub open spec fn began_by(m: Map<Seq<char>, Bucket>, now: u64) -> bool {
    forall|k: Seq<char>| #[trigger] m.contains_key(k) ==> m[k].window_start <= now
}

impl View for RateLimiter {
    type V = Map<Seq<char>, Bucket>;

    closed spec fn view(&self) -> Map<Seq<char>, Bucket> {
        self.buckets@
    }
}

impl RateLimiter {
    /// The keys of the buckets are distinct.
    pub closed spec fn wf(&self) -> bool {
        self.buckets.wf()
    }

    /// A limiter that has counted nothing.
    pub fn new() -> (r: Self)
        ensures
            r.wf(),
            r@ == Map::<Seq<char>, Bucket>::empty(),
    {
        RateLimiter { buckets: Table::new() }
    }

    /// Whether the clock has not fallen behind the window under `key`.
    pub fn clock_reaches(&self, key: &str, now: u64) -> (r: bool)
        requires
            self.wf(),
        ensures
            r == (self@.contains_key(key@) ==> self@[key@].window_start <= now),
    {
        match self.buckets.get(key) {
            Some(b) => b.window_start <= now,
            None => true,
        }
    }

    /// Whether the clock has not fallen behind any window.
    pub fn clock_reaches_all(&self, now: u64) -> (r: bool)
        requires
            self.wf(),
        ensures
            r == began_by(self@, now),
    {
        let n: usize = self.buckets.len();
        let mut i: usize = 0;
        while i < n
            invariant
                i <= n == self.buckets.rows().len(),
                self.wf(),
                forall|j: int|
                    0 <= j < i ==> (#[trigger] self.buckets.rows()[j]).1.window_start <= now,
            decreases n - i,
        {
            if self.buckets.value_at(i).window_start > now {
                proof {
                    lemma_row(self.buckets.rows(), i as int);
                    assert(self@.contains_key(self.buckets.rows()[i as int].0));
                }
                return false;
            }
            i += 1;
        }
        true
    }

    /// Counts a request under `key`, and says whether it is let through.
    pub fn check(&mut self, key: &str, limit: u32, window_secs: u64, now: u64) -> (r: bool)
        requires
            old(self).wf(),
            old(self)@.contains_key(key@) ==> old(self)@[key@].window_start <= now,
        ensures
            final(self).wf(),
            final(self)@ == limiter_after(old(self)@, key@, limit, window_secs, now),
            r == admits(bucket_found(old(self)@, key@, now), limit, window_secs, now),
    {
        let found: Bucket = match self.buckets.get(key) {
            Some(b) => *b,
            None => Bucket { hits: 0, window_start: now },
        };
        let (after, allowed): (Bucket, bool) = if now - found.window_start >= window_secs {
            (Bucket { hits: 1, window_start: now }, true)
        } else if found.hits < limit {
            (Bucket { hits: found.hits + 1, window_start: found.window_start }, true)
        } else {
            (found, false)
        };
        self.buckets.insert(key.to_owned(), after);
        allowed
    }

    /// Drops the buckets whose windows began long ago.
    pub fn cleanup(&mut self, now: u64)
        requires
            old(self).wf(),
            began_by(old(self)@, now),
        ensures
            final(self).wf(),
            final(self)@ == kept(old(self)@, young(now)),
    {
        let test = |b: &Bucket| -> (keep: bool)
            requires
                now >= b.window_start,
            ensures
                keep == young(now)(b@),
        {
            is_young(b, now)
        };
        self.buckets.retain(test, Ghost(young(now)));
    }
}

/// The key under which a client's requests to an endpoint are counted.
pub open spec fn rate_key(ip: Seq<char>, endpoint: Seq<char>) -> Seq<char> {
    ip + ":"@ + endpoint
}

/// The key under which a client's requests to an endpoint are counted.
pub fn rate_key_of(ip: &str, endpoint: &str) -> (r: String)
    ensures
        r@ == rate_key(ip@, endpoint@),
{
    let mut r = ip.to_owned();
    r.append(":");
    r.append(endpoint);
    r
}

/// Counts a client's request to an endpoint, and says whether it is let
/// through.
pub fn check_rate_limit(
    limiter: &mut RateLimiter,
    ip: &str,
    endpoint: &str,
    limit: u32,
    window: u64,
    now: u64,
) -> (r: bool)
    requires
        old(limiter).wf(),
        old(limiter)@.contains_key(rate_key(ip@, endpoint@)) ==> old(limiter)@[rate_key(
            ip@,
            endpoint@,
        )].window_start <= now,
    ensures
        final(limiter).wf(),
        final(limiter)@ == limiter_after(
            old(limiter)@,
            rate_key(ip@, endpoint@),
            limit,
            window,
            now,
        ),
        r == admits(
            bucket_found(old(limiter)@, rate_key(ip@, endpoint@), now),
            limit,
            window,
            now,
        ),
{
    let key = rate_key_of(ip, endpoint);
    limiter.check(key.as_str(), limit, window, now)
}

/// The endpoints whose use is limited.
#[derive(Clone, Copy, Debug)]
pub enum Endpoint {
    /// Technicians log in.
    TechLogin,
    /// Drivers open sessions.
    CreateSession,
    /// Drivers call for service.
    ServiceRequest,
    /// Administrators log in.
    AdminLogin,
}

/// Over how long the requests of a client are counted, in seconds.
pub const LIMIT_WINDOW: u64 = 60;

/// The name of an endpoint in the keys.
pub open spec fn endpoint_name(e: Endpoint) -> Seq<char> {
    match e {
        Endpoint::TechLogin => "tech-login"@,
        Endpoint::CreateSession => "create-session"@,
        Endpoint::ServiceRequest => "service-request"@,
        Endpoint::AdminLogin => "admin-login"@,
    }
}

/// How many requests a client may make to an endpoint in a window.
pub open spec fn endpoint_limit(e: Endpoint) -> u32 {
    match e {
        Endpoint::TechLogin => 10,
        Endpoint::CreateSession => 30,
        Endpoint::ServiceRequest => 5,
        Endpoint::AdminLogin => 5,
    }
}

/// What a client that asks too often is told.
pub open spec fn too_often(e: Endpoint) -> ReplyView {
    refused(
        Status::TooManyRequests,
        match e {
            Endpoint::TechLogin => "Too many login attempts -- please wait"@,
            Endpoint::CreateSession => "Too many session requests"@,
            Endpoint::ServiceRequest => "Too many requests"@,
            Endpoint::AdminLogin => "Too many attempts"@,
        },
    )
}

/// The key under which a client's requests to an endpoint are counted.
pub fn endpoint_key(e: Endpoint, ip: &str) -> (r: String)
    ensures
        r@ == rate_key(ip@, endpoint_name(e)),
{
    match e {
        Endpoint::TechLogin => rate_key_of(ip, "tech-login"),
        Endpoint::CreateSession => rate_key_of(ip, "create-session"),
        Endpoint::ServiceRequest => rate_key_of(ip, "service-request"),
        Endpoint::AdminLogin => rate_key_of(ip, "admin-login"),
    }
}

/// The clock has not fallen behind the window of a client's requests to an
/// endpoint.
pub open spec fn window_begun(
    m: Map<Seq<char>, Bucket>,
    e: Endpoint,
    ip: Seq<char>,
    now: u64,
) -> bool {
    m.contains_key(rate_key(ip, endpoint_name(e))) ==> m[rate_key(
        ip,
        endpoint_name(e),
    )].window_start <= now
}

/// Whether a client's request to an endpoint is let through.
pub open spec fn lets_through(
    m: Map<Seq<char>, Bucket>,
    e: Endpoint,
    ip: Seq<char>,
    now: u64,
) -> bool {
    admits(
        bucket_found(m, rate_key(ip, endpoint_name(e)), now),
        endpoint_limit(e),
        LIMIT_WINDOW,
        now,
    )
}

/// The buckets after a client's request to an endpoint.
pub open spec fn counted(
    m: Map<Seq<char>, Bucket>,
    e: Endpoint,
    ip: Seq<char>,
    now: u64,
) -> Map<Seq<char>, Bucket> {
    limiter_after(m, rate_key(ip, endpoint_name(e)), endpoint_limit(e), LIMIT_WINDOW, now)
}

/// Counts a client's request to a limited endpoint. Where the client asks too
/// often, gives the refusal.
pub fn admit_request(limiter: &mut RateLimiter, e: Endpoint, ip: &str, now: u64) -> (r: Option<
    Reply,
>)
    requires
        old(limiter).wf(),
        window_begun(old(limiter)@, e, ip@, now),
    ensures
        final(limiter).wf(),
        final(limiter)@ == counted(old(limiter)@, e, ip@, now),
        match r {
            None => lets_through(old(limiter)@, e, ip@, now),
            Some(reply) => reply@ == too_often(e) && !lets_through(old(limiter)@, e, ip@, now),
        },
{
    let (endpoint, limit, message): (&str, u32, &str) = match e {
        Endpoint::TechLogin => ("tech-login", 10, "Too many login attempts -- please wait"),
        Endpoint::CreateSession => ("create-session", 30, "Too many session requests"),
        Endpoint::ServiceRequest => ("service-request", 5, "Too many requests"),
        Endpoint::AdminLogin => ("admin-login", 5, "Too many attempts"),
    };
    if check_rate_limit(limiter, ip, endpoint, limit, LIMIT_WINDOW, now) {
        None
    } else {
        Some(refuse(Status::TooManyRequests, message))
    }
}

/// How many of the requests made under `key` at the given times are let through.
pub open spec fn admitted(
    m: Map<Seq<char>, Bucket>,
    key: Seq<char>,
    times: Seq<u64>,
    limit: u32,
    window_secs: u64,
) -> nat
    decreases times.len(),
{
    if times.len() == 0 {
        0
    } else {
        let now = times[0];
        let rest = admitted(
            limiter_after(m, key, limit, window_secs, now),
            key,
            times.drop_first(),
            limit,
            window_secs,
        );
        if admits(bucket_found(m, key, now), limit, window_secs, now) {
            rest + 1
        } else {
            rest
        }
    }
}

/// A window that is open lets through as many requests as are left of its limit,
/// and none after them.
pub proof fn open_window_admits_the_rest(
    m: Map<Seq<char>, Bucket>,
    key: Seq<char>,
    times: Seq<u64>,
    limit: u32,
    window_secs: u64,
)
    requires
        m.contains_key(key),
        m[key].hits <= limit,
        forall|i: int|
            0 <= i < times.len() ==> m[key].window_start <= #[trigger] times[i] && times[i]
                - m[key].window_start < window_secs,
    ensures
        admitted(m, key, times, limit, window_secs) == if times.len() <= limit - m[key].hits {
            times.len() as int
        } else {
            limit - m[key].hits
        },
    decreases times.len(),
{
    if times.len() > 0 {
        let after = limiter_after(m, key, limit, window_secs, times[0]);
        let rest = times.drop_first();
        assert forall|i: int| 0 <= i < rest.len() implies m[key].window_start <= #[trigger] rest[i]
            && rest[i] - m[key].window_start < window_secs by {
            assert(rest[i] == times[i + 1]);
        }
        open_window_admits_the_rest(after, key, rest, limit, window_secs);
    }
}

/// Within one window exactly the first `limit` requests under a key are let
/// through, and none after them.
pub proof fn window_admits_up_to_the_limit(
    m: Map<Seq<char>, Bucket>,
    key: Seq<char>,
    times: Seq<u64>,
    limit: u32,
    window_secs: u64,
)
    requires
        !m.contains_key(key),
        forall|i: int|
            0 <= i < times.len() ==> times[0] <= #[trigger] times[i] && times[i] - times[0]
                < window_secs,
    ensures
        admitted(m, key, times, limit, window_secs) == if times.len() <= limit {
            times.len() as int
        } else {
            limit as int
        },
{
    if times.len() > 0 {
        let began = m.insert(key, Bucket { hits: 0, window_start: times[0] });
        assert(limiter_after(m, key, limit, window_secs, times[0]) =~= limiter_after(
            began,
            key,
            limit,
            window_secs,
            times[0],
        ));
        open_window_admits_the_rest(began, key, times, limit, window_secs);
    }
}

/// No bucket counts more requests than the limit.
pub open spec fn hits_within(m: Map<Seq<char>, Bucket>, limit: u32) -> bool {
    forall|k: Seq<char>| #[trigger] m.contains_key(k) ==> m[k].hits <= limit
}

/// A limit that lets anything through is never exceeded.
pub proof fn hits_stay_within_the_limit(
    m: Map<Seq<char>, Bucket>,
    key: Seq<char>,
    limit: u32,
    window_secs: u64,
    now: u64,
)
    requires
        limit > 0,
        hits_within(m, limit),
    ensures
        hits_within(limiter_after(m, key, limit, window_secs, now), limit),
{
}

proof fn lemma_span_admits(
    m: Map<Seq<char>, Bucket>,
    key: Seq<char>,
    times: Seq<u64>,
    limit: u32,
    window_secs: u64,
)
    requires
        m.contains_key(key),
        limit > 0,
        m[key].hits <= limit,
        forall|i: int, j: int| 0 <= i <= j < times.len() ==> times[i] <= times[j],
        forall|i: int| 0 <= i < times.len() ==> m[key].window_start <= #[trigger] times[i],
        times.len() > 0 ==> times.last() - times[0] < window_secs,
    ensures
        admitted(m, key, times, limit, window_secs) <= 2 * limit - m[key].hits,
    decreases times.len(),
{
    if times.len() > 0 {
        let now = times[0];
        let after = limiter_after(m, key, limit, window_secs, now);
        let rest = times.drop_first();
        assert forall|i: int| 0 <= i < rest.len() implies after[key].window_start
            <= #[trigger] rest[i] && rest[i] - now < window_secs by {
            assert(rest[i] == times[i + 1]);
            assert(times[0] <= times[i + 1] <= times[times.len() - 1]);
        }
        if now - m[key].window_start >= window_secs {
            open_window_admits_the_rest(after, key, rest, limit, window_secs);
        } else {
            if rest.len() > 0 {
                assert(rest.last() == times.last());
                assert(times[0] <= times[1]);
            }
            lemma_span_admits(after, key, rest, limit, window_secs);
        }
    }
}

/// In any span of time shorter than a window, at most twice the limit is let
/// through: one window may end and another begin in it.
pub proof fn span_admits_at_most_twice_the_limit(
    m: Map<Seq<char>, Bucket>,
    key: Seq<char>,
    times: Seq<u64>,
    limit: u32,
    window_secs: u64,
)
    requires
        limit > 0,
        hits_within(m, limit),
        forall|i: int, j: int| 0 <= i <= j < times.len() ==> times[i] <= times[j],
        times.len() > 0 ==> began_by(m, times[0]) && times.last() - times[0] < window_secs,
    ensures
        admitted(m, key, times, limit, window_secs) <= 2 * limit,
{
    if times.len() > 0 {
        assert forall|i: int| 0 <= i < times.len() implies times[0] <= #[trigger] times[i]
            && times[i] - times[0] < window_secs by {
            assert(times[0] <= times[i] <= times[times.len() - 1]);
        }
        if m.contains_key(key) {
            lemma_span_admits(m, key, times, limit, window_secs);
        } else {
            window_admits_up_to_the_limit(m, key, times, limit, window_secs);
        }
    }
}

/// A request under one key leaves the buckets under all other keys alone.
pub proof fn keys_do_not_interfere(
    m: Map<Seq<char>, Bucket>,
    key: Seq<char>,
    other: Seq<char>,
    limit: u32,
    window_secs: u64,
    now: u64,
)
    requires
        key != other,
    ensures
        limiter_after(m, key, limit, window_secs, now).contains_key(other) == m.contains_key(other),
        limiter_after(m, key, limit, window_secs, now)[other] == m[other],
{
}

/// Dropping old buckets changes no answer, for windows no longer than a
/// bucket's life and, where the window has any length, limits that let anything
/// through.
pub proof fn cleanup_changes_no_answer(
    m: Map<Seq<char>, Bucket>,
    key: Seq<char>,
    limit: u32,
    window_secs: u64,
    now: u64,
)
    requires
        began_by(m, now),
        limit > 0 || window_secs == 0,
        window_secs <= BUCKET_LIFE,
    ensures
        admits(bucket_found(kept(m, young(now)), key, now), limit, window_secs, now) == admits(
            bucket_found(m, key, now),
            limit,
            window_secs,
            now,
        ),
        bucket_after(bucket_found(kept(m, young(now)), key, now), limit, window_secs, now)
            == bucket_after(bucket_found(m, key, now), limit, window_secs, now),
{
    assert(m.contains_key(key) ==> m[key].window_start <= now);
}

/// Clients and endpoints get keys of their own, where no endpoint holds a colon.
pub proof fn rate_keys_are_distinct(
    ip: Seq<char>,
    endpoint: Seq<char>,
    other_ip: Seq<char>,
    other_endpoint: Seq<char>,
)
    requires
        !endpoint.contains(':'),
        !other_endpoint.contains(':'),
        rate_key(ip, endpoint) == rate_key(other_ip, other_endpoint),
    ensures
        ip == other_ip,
        endpoint == other_endpoint,
{
    reveal_strlit(":");
    let x = rate_key(ip, endpoint);
    let y = rate_key(other_ip, other_endpoint);
    let i = ip.len() as int;
    let j = other_ip.len() as int;
    assert(x[i] == ':');
    assert(y[j] == ':');
    assert(":"@.len() == 1);
    assert(x.len() == i + 1 + endpoint.len());
    assert(y.len() == j + 1 + other_endpoint.len());
    if i < j {
        let k = j - i - 1;
        assert(x[i + 1 + k] == endpoint[k]);
        assert(endpoint.contains(':'));
    }
    if j < i {
        let k = i - j - 1;
        assert(y[j + 1 + k] == other_endpoint[k]);
        assert(other_endpoint.contains(':'));
    }
    assert(ip =~= x.take(i));
    assert(other_ip =~= y.take(i));
    assert(endpoint =~= x.skip(i + 1));
    assert(other_endpoint =~= y.skip(i + 1));
}

/// The requests of each client to each endpoint are counted by themselves.
pub proof fn endpoints_are_counted_apart(
    ip: Seq<char>,
    e: Endpoint,
    other_ip: Seq<char>,
    other: Endpoint,
)
    requires
        rate_key(ip, endpoint_name(e)) == rate_key(other_ip, endpoint_name(other)),
    ensures
        ip == other_ip,
        e == other,
{
    reveal_strlit("tech-login");
    reveal_strlit("create-session");
    reveal_strlit("service-request");
    reveal_strlit("admin-login");
    rate_keys_are_distinct(ip, endpoint_name(e), other_ip, endpoint_name(other));
    assert("service-request"@[1] == 'e');
    assert("tech-login"@.len() == 10);
    assert("create-session"@.len() == 14);
    assert("service-request"@.len() == 15);
    assert("admin-login"@.len() == 11);
}

} // verus!
