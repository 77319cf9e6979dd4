//! Plain HTTP exchanges with the gateway: where to connect, what to send, and
//! what to make of the response; and which client a request came from.

use crate::numerals::{parse_u16, to_decimal};
#[allow(unused_imports)]
use crate::numerals::{decimal, parsed_u16};
#[allow(unused_imports)]
use crate::text::{after, before, lemma_position, position, trimmed, without_prefixes};
use crate::text::{
    chars_of, find, starts_with, string_of, text_after, text_before, trim, trim_start_matches,
};
use vstd::prelude::*;
use vstd::slice::*;
use vstd::string::*;
use vstd::utf8::*;

verus! {

/// Where a request goes.
#[derive(Debug)]
pub struct Target {
    /// Whether the address asks for encryption.
    pub https: bool,
    /// The host.
    pub host: String,
    /// The port.
    pub port: u16,
    /// The path on the host.
    pub path: String,
}

/// The contents of a [`Target`].
#[verifier::ext_equal]
pub struct TargetView {
    /// Whether the address asks for encryption.
    pub https: bool,
    /// The host.
    pub host: Seq<char>,
    /// The port.
    pub port: u16,
    /// The path on the host.
    pub path: Seq<char>,
}

impl View for Target {
    type V = TargetView;

    open spec fn view(&self) -> TargetView {
        TargetView { https: self.https, host: self.host@, port: self.port, path: self.path@ }
    }
}

/// An address without its scheme.
pub open spec fn without_scheme(url: Seq<char>) -> Seq<char> {
    without_prefixes(without_prefixes(url, "https://"@), "http://"@)
}

/// The path of an address: from the first slash behind the scheme, or `/`.
pub open spec fn path_of(url: Seq<char>) -> Seq<char> {
    let clean = without_scheme(url);
    match position(clean, "/"@) {
        Some(i) => clean.skip(i),
        None => "/"@,
    }
}

/// The host and port of an address.
pub open spec fn authority_of(url: Seq<char>) -> Seq<char> {
    before(without_scheme(url), "/"@)
}

/// The port that an address names: what stands between its first and second
/// colon, where that reads as a port.
pub open spec fn port_of(url: Seq<char>) -> Option<u16> {
    match after(authority_of(url), ":"@) {
        Some(rest) => parsed_u16(before(rest, ":"@)),
        None => None,
    }
}

/// Where a request to an address goes.
pub open spec fn target(url: Seq<char>, default_port: u16) -> TargetView {
    TargetView {
        https: "https://"@.is_prefix_of(url),
        host: before(authority_of(url), ":"@),
        port: match port_of(url) {
            Some(p) => p,
            None => default_port,
        },
        path: path_of(url),
    }
}

fn target_at(url: &str, https: bool, default_port: u16) -> (r: Target)
    requires
        https == "https://"@.is_prefix_of(url@),
    ensures
        r@ == target(url@, default_port),
{
    proof {
        reveal_strlit("https://");
        reveal_strlit("http://");
        reveal_strlit("/");
    }
    let unsecured = trim_start_matches(url, "https://");
    let clean = trim_start_matches(unsecured.as_str(), "http://");
    let authority = text_before(clean.as_str(), "/");
    let chars = chars_of(clean.as_str());
    let slash = chars_of("/");
    let n: usize = chars.len();
    let path = match find(chars.as_slice(), slash.as_slice()) {
        Some(i) => string_of(slice_subrange(chars.as_slice(), i, n)),
        None => "/".to_owned(),
    };
    let named: Option<u16> = match text_after(authority.as_str(), ":") {
        Some(rest) => parse_u16(text_before(rest.as_str(), ":").as_str()),
        None => None,
    };
    let port: u16 = match named {
        Some(p) => p,
        None => default_port,
    };
    Target { https, host: text_before(authority.as_str(), ":"), port, path }
}

/// The port of an encrypted connection when none is named.
pub const HTTPS_PORT: u16 = 443;

/// The port of a plain connection when none is named.
pub const HTTP_PORT: u16 = 80;

/// Where a POST to an address goes.
pub open spec fn post_target(url: Seq<char>) -> TargetView {
    target(
        url,
        if "https://"@.is_prefix_of(url) {
            HTTPS_PORT
        } else {
            HTTP_PORT
        },
    )
}

/// Where a POST to an address goes.
pub fn post_target_of(url: &str) -> (r: Target)
    ensures
        r@ == post_target(url@),
{
    let https = starts_with(url, "https://");
    target_at(
        url,
        https,
        if https {
            HTTPS_PORT
        } else {
            HTTP_PORT
        },
    )
}

/// Where a DELETE to an address goes: to the plain port where none is named.
pub fn delete_target_of(url: &str) -> (r: Target)
    ensures
        r@ == target(url@, HTTP_PORT),
{
    target_at(url, starts_with(url, "https://"), HTTP_PORT)
}

/// The host and port to connect to.
pub fn address_of(t: &Target) -> (r: String)
    ensures
        r@ == t.host@ + ":"@ + decimal(t.port as nat),
{
    let mut r = t.host.clone();
    r.append(":");
    r.append(to_decimal(t.port as u64).as_str());
    r
}

/// A POST request with a form body. It announces the length of the body in
/// bytes.
pub open spec fn post_request(t: TargetView, body: Seq<char>) -> Seq<char> {
    "POST "@ + t.path + " HTTP/1.0\nHost: "@ + t.host
        + "\nContent-Type: application/x-www-form-urlencoded\nContent-Length: "@ + decimal(
        encode_utf8(body).len(),
    ) + "\nConnection: close\n\n"@ + body
}

/// A DELETE request with the gateway's token.
pub open spec fn delete_request(t: TargetView, token: Seq<char>) -> Seq<char> {
    "DELETE "@ + t.path + " HTTP/1.0\nHost: "@ + t.host + "\nGuacamole-Token: "@ + token
        + "\nConnection: close\n\n"@
}

/// A POST request with a form body.
pub fn post_request_of(t: &Target, body: &str) -> (r: String)
    ensures
        r@ == post_request(t@, body@),
{
    let mut r = "POST ".to_owned();
    r.append(t.path.as_str());
    r.append(" HTTP/1.0\nHost: ");
    r.append(t.host.as_str());
    r.append("\nContent-Type: application/x-www-form-urlencoded\nContent-Length: ");
    let bytes = body.as_bytes();
    r.append(to_decimal(bytes.len() as u64).as_str());
    r.append("\nConnection: close\n\n");
    r.append(body);
    r
}

/// A DELETE request with the gateway's token.
pub fn delete_request_of(t: &Target, token: &str) -> (r: String)
    ensures
        r@ == delete_request(t@, token@),
{
    let mut r = "DELETE ".to_owned();
    r.append(t.path.as_str());
    r.append(" HTTP/1.0\nHost: ");
    r.append(t.host.as_str());
    r.append("\nGuacamole-Token: ");
    r.append(token);
    r.append("\nConnection: close\n\n");
    r
}

/// Where the first empty line of a response begins: two line feeds in a row.
pub open spec fn blank_line(b: Seq<u8>) -> Option<int> {
    position(b, seq![10u8, 10u8])
}

/// Where the first opening brace of a response stands.
pub open spec fn brace(b: Seq<u8>) -> Option<int> {
    position(b, seq![123u8])
}

/// How much of an unexpected response is shown, in bytes.
pub const SHOWN_LIMIT: usize = 100;

/// How much of a response is shown.
pub open spec fn shown(b: Seq<u8>) -> int {
    if b.len() < SHOWN_LIMIT {
        b.len() as int
    } else {
        SHOWN_LIMIT as int
    }
}

/// Whether a response can be cut where it is to be cut: not beyond its end, and
/// not inside a character.
pub open spec fn readable(b: Seq<u8>) -> bool {
    match blank_line(b) {
        Some(i) => is_char_boundary(b, i + 4),
        None => brace(b) is Some || is_char_boundary(b, shown(b)),
    }
}

/// What a response says: what stands four bytes behind the start of the first
/// empty line; or else, from the first brace on, the JSON in it; or else
/// nothing, and the complaint shows its beginning.
pub open spec fn response_text(b: Seq<u8>) -> Result<Seq<char>, Seq<char>> {
    match blank_line(b) {
        Some(i) => Ok(decode_utf8(b.skip(i + 4))),
        None => match brace(b) {
            Some(i) => Ok(decode_utf8(b.skip(i))),
            None => Err("Unexpected response: "@ + decode_utf8(b.take(shown(b)))),
        },
    }
}

fn bytes_at(s: &[u8], p: &[u8], i: usize) -> (r: bool)
    requires
        i <= s@.len(),
    ensures
        r == p@.is_prefix_of(s@.skip(i as int)),
{
    let n: usize = s.len();
    if n - i < p.len() {
        return false;
    }
    let mut k: usize = 0;
    while k < p.len()
        invariant
            k <= p@.len(),
            n == s@.len(),
            i + p@.len() <= n,
            forall|j: int| 0 <= j < k ==> s@[i + j] == p@[j],
        decreases p@.len() - k,
    {
        if s[i + k] != p[k] {
            assert(s@.skip(i as int)[k as int] != p@[k as int]);
            return false;
        }
        k += 1;
    }
    assert(p@ =~= s@.skip(i as int).subrange(0, p@.len() as int));
    true
}

fn find_bytes(s: &[u8], p: &[u8]) -> (r: Option<usize>)
    ensures
        match r {
            Some(i) => position(s@, p@) == Some(i as int) && i + p@.len() <= s@.len(),
            None => position(s@, p@) is None,
        },
{
    proof {
        lemma_position(s@, p@);
    }
    let mut i: usize = 0;
    assert(s@.skip(0) =~= s@);
    loop
        invariant
            i <= s@.len(),
            position(s@, p@) == match position(s@.skip(i as int), p@) {
                Some(k) => Some(k + i),
                None => None::<int>,
            },
            position(s@, p@) matches Some(k) ==> k + p@.len() <= s@.len(),
        decreases s@.len() - i,
    {
        if bytes_at(s, p, i) {
            return Some(i);
        }
        if i == s.len() {
            return None;
        }
        assert(s@.skip(i as int).drop_first() =~= s@.skip(i + 1));
        i += 1;
    }
}

fn blank_line_of(b: &[u8]) -> (r: Option<usize>)
    ensures
        match r {
            Some(i) => blank_line(b@) == Some(i as int) && i + 2 <= b@.len(),
            None => blank_line(b@) is None,
        },
{
    let p: [u8; 2] = [10, 10];
    assert(p@ =~= seq![10u8, 10u8]);
    find_bytes(b, &p)
}

fn brace_of(b: &[u8]) -> (r: Option<usize>)
    ensures
        match r {
            Some(i) => brace(b@) == Some(i as int) && i < b@.len(),
            None => brace(b@) is None,
        },
{
    let p: [u8; 1] = [123];
    assert(p@ =~= seq![123u8]);
    find_bytes(b, &p)
}

/// Whether a response can be cut where it is to be cut.
pub fn is_readable(text: &str) -> (r: bool)
    ensures
        r == readable(text.spec_bytes()),
{
    let b = text.as_bytes();
    let n: usize = b.len();
    proof {
        encode_utf8_valid_utf8(text@);
    }
    match blank_line_of(b) {
        Some(i) => {
            if n - i < 4 {
                assert(!is_char_boundary(b@, i + 4));
                false
            } else {
                text.is_char_boundary(i + 4)
            }
        },
        None => {
            brace_of(b).is_some() || text.is_char_boundary(
                if n < SHOWN_LIMIT {
                    n
                } else {
                    SHOWN_LIMIT
                },
            )
        },
    }
}

fn text_from(text: &str, mid: usize) -> (r: String)
    requires
        is_char_boundary(text.spec_bytes(), mid as int),
        mid <= text.spec_bytes().len(),
    ensures
        r@ == decode_utf8(text.spec_bytes().skip(mid as int)),
{
    let (_, rest) = text.split_at(mid);
    proof {
        encode_utf8_decode_utf8(rest@);
        assert(rest.spec_bytes() =~= text.spec_bytes().skip(mid as int));
    }
    rest.to_owned()
}

/// Reads a response.
pub fn response_body(text: &str) -> (r: Result<String, String>)
    requires
        readable(text.spec_bytes()),
    ensures
        match r {
            Ok(t) => response_text(text.spec_bytes()) == Ok::<Seq<char>, Seq<char>>(t@),
            Err(e) => response_text(text.spec_bytes()) == Err::<Seq<char>, Seq<char>>(e@),
        },
{
    let b = text.as_bytes();
    let n: usize = b.len();
    proof {
        encode_utf8_valid_utf8(text@);
    }
    match blank_line_of(b) {
        Some(i) => {
            assert(i + 4 <= n) by {
                lemma_boundary_within(b@, i + 4);
            }
            Ok(text_from(text, i + 4))
        },
        None => match brace_of(b) {
            Some(i) => {
                proof {
                    lemma_position(b@, seq![123u8]);
                    assert(b@.subrange(i as int, i + 1)[0] == b@[i as int]);
                    is_char_boundary_iff_not_is_continuation_byte(b@, i as int);
                }
                Ok(text_from(text, i))
            },
            None => {
                let mid: usize = if n < SHOWN_LIMIT {
                    n
                } else {
                    SHOWN_LIMIT
                };
                let (start, _) = text.split_at(mid);
                proof {
                    encode_utf8_decode_utf8(start@);
                    assert(start.spec_bytes() =~= text.spec_bytes().take(mid as int));
                }
                let mut e = "Unexpected response: ".to_owned();
                e.append(start);
                Err(e)
            },
        },
    }
}

proof fn lemma_boundary_within(b: Seq<u8>, i: int)
    requires
        valid_utf8(b),
        is_char_boundary(b, i),
    ensures
        0 <= i <= b.len(),
{
}

/// The text that bytes hold, with what is no UTF-8 replaced, as
/// `String::from_utf8_lossy` gives it.
pub uninterp spec fn lossy(bytes: Seq<u8>) -> Seq<char>;

/// Calls `String::from_utf8_lossy`. What it gives depends on the bytes alone,
/// and of valid UTF-8 it is the text that the bytes encode.
#[verifier::external_body]
fn lossy_text(bytes: &[u8]) -> (r: String)
    ensures
        r@ == lossy(bytes@),
        valid_utf8(bytes@) ==> r@ == decode_utf8(bytes@),
{
    String::from_utf8_lossy(bytes).into_owned()
}

/// Reads a response from its bytes. Gives nothing where the response cannot be
/// cut where it is to be cut.
pub fn read_response(bytes: &[u8]) -> (r: Option<Result<String, String>>)
    ensures
        match r {
            Some(Ok(t)) => readable(encode_utf8(lossy(bytes@))) && response_text(
                encode_utf8(lossy(bytes@)),
            ) == Ok::<Seq<char>, Seq<char>>(t@),
            Some(Err(e)) => readable(encode_utf8(lossy(bytes@))) && response_text(
                encode_utf8(lossy(bytes@)),
            ) == Err::<Seq<char>, Seq<char>>(e@),
            None => !readable(encode_utf8(lossy(bytes@))),
        },
        valid_utf8(bytes@) ==> lossy(bytes@) == decode_utf8(bytes@),
{
    let text = lossy_text(bytes);
    if is_readable(text.as_str()) {
        Some(response_body(text.as_str()))
    } else {
        None
    }
}

/// The first of the addresses that a request was forwarded for, trimmed.
pub open spec fn first_address(header: Seq<char>) -> Seq<char> {
    trimmed(before(header, ","@))
}

/// The client that a request came from: the first of the addresses that it was
/// forwarded for, trimmed; or `unknown`.
pub fn get_client_ip(forwarded_for: Option<&str>) -> (r: String)
    ensures
        r@ == match forwarded_for {
            Some(h) => first_address(h@),
            None => "unknown"@,
        },
{
    match forwarded_for {
        Some(h) => trim(text_before(h, ",").as_str()),
        None => "unknown".to_owned(),
    }
}

} // verus!
