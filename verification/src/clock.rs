//! The wall clock, and the names that are made from its readings.

use crate::numerals::{to_decimal, to_hex_lower, to_hex_upper};
#[allow(unused_imports)]
use crate::numerals::{decimal, hex_lower, hex_upper, numeral_is_injective};
use vstd::prelude::*;
use vstd::string::*;

verus! {

/// A reading of the wall clock: the time since the start of 1970.
#[derive(Clone, Copy, Debug, PartialEq, Eq)]
pub struct Moment {
    /// Whole seconds.
    pub secs: u64,
    /// Nanoseconds past the last whole second.
    pub nanos: u32,
}

impl Moment {
    /// Less than a second is left over.
    pub open spec fn wf(&self) -> bool {
        self.nanos < 1_000_000_000
    }

    /// The whole reading in nanoseconds.
    pub open spec fn nanos_since_epoch(&self) -> int {
        self.secs * 1_000_000_000 + self.nanos
    }

    /// The whole reading in milliseconds, rounded down.
    pub open spec fn millis_since_epoch(&self) -> int {
        self.secs * 1_000 + self.nanos as int / 1_000_000
    }

    /// The reading in nanoseconds.
    pub fn as_nanos(&self) -> (r: u128)
        ensures
            r == self.nanos_since_epoch(),
    {
        self.secs as u128 * 1_000_000_000 + self.nanos as u128
    }

    /// The reading in milliseconds.
    pub fn as_millis(&self) -> (r: u128)
        ensures
            r == self.millis_since_epoch(),
    {
        self.secs as u128 * 1_000 + (self.nanos / 1_000_000) as u128
    }
}

/// Reads the clock with `SystemTime::now` and gives the time since
/// `UNIX_EPOCH`, or zero where the clock stands before it. Of the reading only
/// that its fraction is less than a second is claimed: the rest is the
/// machine's.
#[verifier::external_body]
fn read_clock() -> (m: Moment)
    ensures
        m.wf(),
{
    let d = std::time::SystemTime::now().duration_since(std::time::UNIX_EPOCH).unwrap_or_default();
    Moment { secs: d.as_secs(), nanos: d.subsec_nanos() }
}

/// The present moment.
pub fn now() -> (m: Moment)
    ensures
        m.wf(),
{
    read_clock()
}

/// The present time in whole seconds. What the clock shows is not stated.
pub fn now_secs() -> u64 {
    read_clock().secs
}

/// The present time in whole seconds, in decimal.
pub fn now_string() -> (r: String)
    ensures
        exists|secs: u64| r@ == #[trigger] decimal(secs as nat),
{
    to_decimal(now_secs())
}

/// What the nanoseconds of a reading are mixed with to make a token.
pub const TOKEN_MASK: u128 = 0xDEADBEEFCAFEBABE;

/// The token made at the given nanosecond.
pub open spec fn token_text(nanos: u128) -> Seq<char> {
    hex_lower((nanos ^ TOKEN_MASK) as nat)
}

/// The session id made at the given millisecond.
pub open spec fn session_id_text(millis: nat) -> Seq<char> {
    "DL-"@ + hex_upper(millis)
}

/// The token made at the given nanosecond.
pub fn token_at(nanos: u128) -> (r: String)
    ensures
        r@ == token_text(nanos),
{
    to_hex_lower(nanos ^ TOKEN_MASK)
}

/// The session id made at the given millisecond.
pub fn session_id_at(millis: u128) -> (r: String)
    ensures
        r@ == session_id_text(millis as nat),
{
    let mut r = "DL-".to_owned();
    r.append(to_hex_upper(millis).as_str());
    r
}

/// A token made now.
pub fn generate_token() -> (r: String)
    ensures
        exists|m: Moment|
            m.wf() && r@ == token_text((#[trigger] m.nanos_since_epoch()) as u128),
{
    let m = read_clock();
    token_at(m.as_nanos())
}

/// A session id made now.
pub fn generate_session_id() -> (r: String)
    ensures
        exists|m: Moment|
            m.wf() && r@ == session_id_text((#[trigger] m.millis_since_epoch()) as nat),
{
    let m = read_clock();
    session_id_at(m.as_millis())
}

/// Tokens made at different nanoseconds differ.
pub proof fn token_is_injective(a: u128, b: u128)
    requires
        token_text(a) == token_text(b),
    ensures
        a == b,
{
    numeral_is_injective((a ^ TOKEN_MASK) as nat, (b ^ TOKEN_MASK) as nat, 16, false);
    let mask = TOKEN_MASK;
    assert(a == b) by (bit_vector)
        requires
            a ^ mask == b ^ mask,
    ;
}

/// Session ids made at different milliseconds differ.
pub proof fn session_id_is_injective(a: nat, b: nat)
    requires
        session_id_text(a) == session_id_text(b),
    ensures
        a == b,
{
    let x = session_id_text(a);
    let y = session_id_text(b);
    assert(x.skip("DL-"@.len() as int) =~= hex_upper(a));
    assert(y.skip("DL-"@.len() as int) =~= hex_upper(b));
    numeral_is_injective(a, b, 16, true);
}

} // verus!
