//! What is asked of the gateway, what is made of its answers, and what
//! technicians are told.

#[allow(unused_imports)]
use crate::guac::{
    configured, connection_id, connection_url, early_answer, late_answer, member_answer,
    revocation, token_body, token_url, whole_answer, GuacAnswerView, GuacView, TokenOutcome,
};
#[allow(unused_imports)]
use crate::http::{
    authority_of, delete_request, first_address, post_request, post_target, readable,
    response_text, target, without_scheme, TargetView,
};
#[allow(unused_imports)]
use crate::json::{member_of, parsed_members, MemberView};
#[allow(unused_imports)]
use crate::model::{SessionView, UpdateRequest};
#[allow(unused_imports)]
use crate::numerals::{decimal, decimal_reads_back};
#[allow(unused_imports)]
use crate::reply::Status;
#[allow(unused_imports)]
use crate::technician::update_revocation;
#[allow(unused_imports)]
use crate::text::{
    after, before, lemma_position_at, lemma_position_none, position, trimmed, without_prefixes,
};
use vstd::prelude::*;
use vstd::string::*;
use vstd::utf8::*;

verus! {

/// A member of a document is found exactly where the text holds a document with
/// such a string, and is that string.
pub proof fn members_are_found_where_they_are(text: Seq<char>, key: Seq<char>)
    ensures
        member_of(text, key) is NoDocument <==> parsed_members(text) is None,
        member_of(text, key) is Text <==> (parsed_members(text) matches Some(m)
            && m.contains_key(key)),
        member_of(text, key) matches MemberView::Text(t) ==> (parsed_members(text) matches Some(m)
            && t == m[key]),
{
}

/// There is a gateway to ask exactly where an address and a password are set.
pub proof fn gateway_needs_address_and_password(c: GuacView)
    ensures
        configured(c) <==> c.base.len() > 0 && c.password.len() > 0,
{
}

/// Slashes at the end of the gateway's address do not matter; behind an address
/// without them stands the path that is asked for.
pub proof fn slashes_at_the_end_do_not_matter(c: GuacView, id: Seq<char>)
    ensures
        c.base.len() == 0 || c.base.last() != '/' ==> token_url(c) == c.base + "/api/tokens"@
            && connection_url(c, id) == c.base + "/api/session/data/postgresql/connections/"@ + id,
        token_url(GuacView { base: c.base.push('/'), ..c }) == token_url(c),
        connection_url(GuacView { base: c.base.push('/'), ..c }, id) == connection_url(c, id),
{
    assert(c.base.push('/').drop_last() =~= c.base);
}

/// The gateway is sent the user and the password that are set.
pub proof fn gateway_is_sent_the_credentials(c: GuacView)
    ensures
        token_body(c) == "username="@ + c.user + "&password="@ + c.password,
{
}

/// A connection is taken away exactly where there is a gateway and the address
/// leads to a connection: with a token from the gateway, and that connection.
pub proof fn revocation_is_of_the_connection(url: Seq<char>, c: GuacView)
    ensures
        revocation(url, c) is Some <==> c.base.len() > 0 && c.password.len() > 0 && connection_id(
            url,
        ) is Some,
        revocation(url, c) matches Some(r) ==> {
            &&& r.token_url == token_url(c)
            &&& r.token_body == token_body(c)
            &&& connection_id(url) matches Some(id) && r.delete_url == connection_url(c, id)
        },
{
}

/// A change takes the session's connection away exactly where its status ends the
/// work.
pub proof fn ending_revokes_the_connection(s: SessionView, req: UpdateRequest, c: GuacView)
    ensures
        req.status@ == "Technician Disconnected"@ || req.status@ == "Session Complete"@
            ==> update_revocation(s, req, c) == revocation(s.guac_url, c),
        req.status@ != "Technician Disconnected"@ && req.status@ != "Session Complete"@
            ==> update_revocation(s, req, c) is None,
{
}

/// An address without `/#/client/` leads nowhere.
pub proof fn other_addresses_lead_nowhere(url: Seq<char>)
    requires
        position(url, "/#/client/"@) is None,
    ensures
        connection_id(url) is None,
{
}

proof fn lemma_separator_first(a: Seq<char>, b: Seq<char>)
    requires
        !a.contains('#'),
    ensures
        position(a + "/#/client/"@ + b, "/#/client/"@) == Some(a.len() as int),
{
    reveal_strlit("/#/client/");
    let sep = "/#/client/"@;
    let s = a + sep + b;
    assert(s.skip(a.len() as int) =~= sep + b);
    assert((sep + b).subrange(0, sep.len() as int) =~= sep);
    assert forall|j: int| 0 <= j < a.len() implies !sep.is_prefix_of(#[trigger] s.skip(j)) by {
        if sep.is_prefix_of(s.skip(j)) {
            assert(s.skip(j)[1] == sep[1]);
            if j + 1 < a.len() {
                assert(a[j + 1] == '#');
            } else {
                assert(s[j + 1] == sep[0]);
            }
        }
    }
    lemma_position_at(s, sep, a.len() as int);
}

/// What stands behind a second `/#/client/` does not matter.
pub proof fn second_separator_ends_the_address(a: Seq<char>, encoded: Seq<char>, more: Seq<char>)
    requires
        !a.contains('#'),
        !encoded.contains('#'),
    ensures
        connection_id(a + "/#/client/"@ + encoded + "/#/client/"@ + more) == connection_id(
            a + "/#/client/"@ + encoded,
        ),
{
    let sep = "/#/client/"@;
    let long = a + sep + (encoded + sep + more);
    let short = a + sep + encoded;
    assert(a + sep + encoded + sep + more =~= long);
    lemma_separator_first(a, encoded + sep + more);
    lemma_separator_first(a, encoded);
    assert(long.skip(a.len() as int + sep.len()) =~= encoded + sep + more);
    assert(short.skip(a.len() as int + sep.len()) =~= encoded);
    lemma_separator_first(encoded, more);
    assert((encoded + sep + more).take(encoded.len() as int) =~= encoded);
    assert forall|j: int| 0 <= j <= encoded.len() implies !sep.is_prefix_of(
        #[trigger] encoded.skip(j),
    ) by {
        reveal_strlit("/#/client/");
        if sep.is_prefix_of(encoded.skip(j)) {
            assert(encoded.skip(j)[1] == sep[1]);
            assert(encoded[j + 1] == '#');
        }
    }
    lemma_position_none(encoded, sep);
}

/// A technician gets a token exactly where the technician is logged in, there is a
/// gateway, and it responded with a document that holds a token that is not empty;
/// and then that token, with the gateway's address.
pub proof fn token_is_the_gateways(logged_in: bool, c: GuacView, outcome: TokenOutcome)
    ensures
        whole_answer(logged_in, c, outcome) is Granted <==> {
            &&& logged_in && c.base.len() > 0 && c.password.len() > 0
            &&& outcome matches TokenOutcome::Responded(text) && member_of(
                text@,
                "authToken"@,
            ) matches MemberView::Text(t) && t.len() > 0
        },
        whole_answer(logged_in, c, outcome) matches GuacAnswerView::Granted { token, guac_url }
            ==> guac_url == c.base && (outcome matches TokenOutcome::Responded(text) && member_of(
            text@,
            "authToken"@,
        ) == MemberView::Text(token)),
{
}

/// A technician who gets no token is told why.
pub proof fn failures_are_told(logged_in: bool, c: GuacView, outcome: TokenOutcome)
    ensures
        !logged_in ==> (whole_answer(logged_in, c, outcome) matches GuacAnswerView::Refused(r)
            && r.status == Status::Unauthorized && !r.ok && r.message == "Please log in first"@),
        logged_in && !configured(c) ==> whole_answer(logged_in, c, outcome)
            == GuacAnswerView::Failed("Guacamole not configured on server"@),
        logged_in && configured(c) ==> match outcome {
            TokenOutcome::Failed(e) => whole_answer(logged_in, c, outcome)
                == GuacAnswerView::Failed("Guacamole error: "@ + e@),
            TokenOutcome::Aborted(e) => whole_answer(logged_in, c, outcome)
                == GuacAnswerView::Failed("Server error: "@ + e@),
            TokenOutcome::Responded(text) => match member_of(text@, "authToken"@) {
                MemberView::NoDocument => whole_answer(logged_in, c, outcome)
                    == GuacAnswerView::Failed("Invalid Guacamole response"@),
                MemberView::Absent => whole_answer(logged_in, c, outcome)
                    == GuacAnswerView::Failed("Guacamole login failed"@),
                MemberView::Text(t) => t.len() == 0 ==> whole_answer(logged_in, c, outcome)
                    == GuacAnswerView::Failed("Guacamole login failed"@),
            },
        },
{
}

/// What is told before the gateway is asked, and what after, is the whole answer.
pub proof fn answers_come_early_or_late(logged_in: bool, c: GuacView, outcome: TokenOutcome)
    ensures
        early_answer(logged_in, c) is None <==> logged_in && configured(c),
        early_answer(logged_in, c) matches Some(a) ==> a == whole_answer(logged_in, c, outcome),
        early_answer(logged_in, c) is None ==> late_answer(outcome, c.base) == whole_answer(
            logged_in,
            c,
            outcome,
        ),
        outcome matches TokenOutcome::Responded(text) ==> late_answer(outcome, c.base)
            == member_answer(member_of(text@, "authToken"@), c.base),
{
}

proof fn lemma_first_char(a: Seq<char>, c: char, b: Seq<char>, one: Seq<char>)
    requires
        !a.contains(c),
        one == seq![c],
    ensures
        position(a + one + b, one) == Some(a.len() as int),
        before(a + one + b, one) == a,
        after(a + one + b, one) == Some(b),
{
    let s = a + one + b;
    assert(s.skip(a.len() as int) =~= one + b);
    assert((one + b).subrange(0, 1) =~= one);
    assert forall|j: int| 0 <= j < a.len() implies !one.is_prefix_of(#[trigger] s.skip(j)) by {
        if one.is_prefix_of(s.skip(j)) {
            assert(s.skip(j)[0] == one[0]);
            assert(a[j] == c);
        }
    }
    lemma_position_at(s, one, a.len() as int);
    assert(s.take(a.len() as int) =~= a);
    assert(s.skip(a.len() as int + 1) =~= b);
}

proof fn lemma_no_char(s: Seq<char>, c: char, one: Seq<char>)
    requires
        !s.contains(c),
        one == seq![c],
    ensures
        position(s, one) is None,
        before(s, one) == s,
        after(s, one) is None,
{
    assert forall|j: int| 0 <= j <= s.len() implies !one.is_prefix_of(#[trigger] s.skip(j)) by {
        if one.is_prefix_of(s.skip(j)) {
            assert(s.skip(j)[0] == one[0]);
            assert(s[j] == c);
        }
    }
    lemma_position_none(s, one);
}

proof fn lemma_strip_once(p: Seq<char>, t: Seq<char>)
    requires
        p.len() > 0,
        !p.is_prefix_of(t),
    ensures
        without_prefixes(p + t, p) == t,
        without_prefixes(t, p) == t,
{
    assert((p + t).subrange(0, p.len() as int) =~= p);
    assert(p.is_prefix_of(p + t));
    assert((p + t).skip(p.len() as int) =~= t);
    assert(without_prefixes(t, p) == t);
    assert(without_prefixes(p + t, p) == without_prefixes((p + t).skip(p.len() as int), p));
}

/// The port of an address in words, where it has one.
pub open spec fn port_text(port: Option<u16>) -> Seq<char> {
    match port {
        Some(p) => ":"@ + decimal(p as nat),
        None => seq![],
    }
}

proof fn lemma_host_is_no_scheme(host: Seq<char>, port: Option<u16>, path: Seq<char>)
    requires
        !host.contains('/'),
        !host.contains(':'),
        path.len() > 0 ==> path[0] == '/',
    ensures
        !"http://"@.is_prefix_of(host + port_text(port) + path),
        !"https://"@.is_prefix_of(host + port_text(port) + path),
{
    reveal_strlit("http://");
    reveal_strlit("https://");
    reveal_strlit(":");
    let t = host + port_text(port) + path;
    let n = host.len() as int;
    if let Some(p) = port {
        crate::laws::words::numerals_stand_for_their_numbers(p as nat, 10, false);
        assert(port_text(port)[0] == ':');
        assert(port_text(port)[1] == decimal(p as nat)[0]);
        assert(t[n] == ':');
        assert(t[n + 1] == decimal(p as nat)[0]);
        assert('0' <= t[n + 1] <= '9' || 'a' <= t[n + 1] <= 'f');
    } else if path.len() > 0 {
        assert(t[n] == '/');
    }
    if "http://"@.is_prefix_of(t) {
        let q = "http://"@;
        assert(t[0] == q[0] && t[1] == q[1] && t[2] == q[2] && t[3] == q[3]);
        assert(t[4] == q[4] && t[5] == q[5]);
        if n > 4 {
            assert(host[4] == ':');
        }
    }
    if "https://"@.is_prefix_of(t) {
        let q = "https://"@;
        assert(t[0] == q[0] && t[1] == q[1] && t[2] == q[2] && t[3] == q[3] && t[4] == q[4]);
        assert(t[5] == q[5] && t[6] == q[6]);
        if n > 5 {
            assert(host[5] == ':');
        }
    }
}

/// How an address says whether to encrypt.
pub open spec fn scheme_text(https: bool, plain: bool) -> Seq<char> {
    if https {
        "https://"@
    } else if plain {
        "http://"@
    } else {
        seq![]
    }
}

/// An address made of a scheme, if any, a host, a port, if any, and a path, if any,
/// is taken apart into these: encrypted exactly where it says so, to the port that
/// it names or else the default, and to the root where it names no path.
pub proof fn addresses_are_taken_apart(
    https: bool,
    plain: bool,
    host: Seq<char>,
    port: Option<u16>,
    path: Seq<char>,
    default_port: u16,
)
    requires
        !host.contains('/'),
        !host.contains(':'),
        path.len() > 0 ==> path[0] == '/',
    ensures
        ({
            let t = target(
                scheme_text(https, plain) + (host + port_text(port) + path),
                default_port,
            );
            &&& t.https == https
            &&& t.host == host
            &&& port matches Some(p) ==> t.port == p
            &&& port is None ==> t.port == default_port
            &&& path.len() > 0 ==> t.path == path
            &&& path.len() == 0 ==> t.path == "/"@
        }),
{
    reveal_strlit("http://");
    reveal_strlit("https://");
    reveal_strlit(":");
    reveal_strlit("/");
    let slash = "/"@;
    let colon = ":"@;
    assert(slash =~= seq!['/']);
    assert(colon =~= seq![':']);
    let auth = host + port_text(port);
    let rest = auth + path;
    let url = scheme_text(https, plain) + rest;
    lemma_host_is_no_scheme(host, port, path);
    lemma_strip_once("https://"@, rest);
    lemma_strip_once("http://"@, rest);
    if !https {
        if plain {
            assert(!"https://"@.is_prefix_of(url)) by {
                if "https://"@.is_prefix_of(url) {
                    assert(url[4] == "https://"@[4]);
                    assert(url[4] == "http://"@[4]);
                }
            }
        } else {
            assert(url =~= rest);
        }
    } else {
        assert(url.subrange(0, "https://"@.len() as int) =~= "https://"@);
    }
    assert(without_scheme(url) == rest);
    // The port holds no slash and, behind its colon, no colon.
    let digits = match port {
        Some(p) => decimal(p as nat),
        None => seq![],
    };
    if let Some(p) = port {
        crate::laws::words::numerals_stand_for_their_numbers(p as nat, 10, false);
        decimal_reads_back(p);
    }
    assert(!digits.contains(':')) by {
        if digits.contains(':') {
            let i = choose|i: int| 0 <= i < digits.len() && digits[i] == ':';
            assert(digits[i] == ':');
        }
    }
    assert(!auth.contains('/')) by {
        if auth.contains('/') {
            let i = choose|i: int| 0 <= i < auth.len() && auth[i] == '/';
            if i < host.len() {
                assert(host[i] == '/');
            } else if i > host.len() {
                assert(auth[i] == digits[i - host.len() - 1]);
            }
        }
    }
    // The first slash begins the path.
    if path.len() > 0 {
        let tail = path.drop_first();
        assert(slash + tail =~= path);
        assert(auth + slash + tail =~= rest);
        lemma_first_char(auth, '/', tail, slash);
        assert(rest.skip(auth.len() as int) =~= path);
    } else {
        assert(rest =~= auth);
        lemma_no_char(auth, '/', slash);
    }
    assert(authority_of(url) == auth);
    // The first colon ends the host.
    match port {
        Some(p) => {
            assert(host + colon + digits =~= auth);
            lemma_first_char(host, ':', digits, colon);
            lemma_no_char(digits, ':', colon);
        },
        None => {
            assert(auth =~= host);
            lemma_no_char(host, ':', colon);
        },
    }
}

/// Where no port is named, a form goes to the port for encryption exactly where
/// the address asks for it.
pub proof fn forms_go_to_the_usual_ports(url: Seq<char>)
    ensures
        "https://"@.is_prefix_of(url) ==> post_target(url) == target(url, 443),
        !"https://"@.is_prefix_of(url) ==> post_target(url) == target(url, 80),
{
}

/// A form is sent to the path and host of its target, with its length in bytes
/// before an empty line and itself behind it.
pub proof fn forms_are_sent_with_their_length(t: TargetView, body: Seq<char>)
    ensures
        ({
            let first = "POST "@ + t.path + " HTTP/1.0\nHost: "@ + t.host;
            let last = decimal(encode_utf8(body).len()) + "\nConnection: close\n\n"@ + body;
            post_request(t, body) == first
                + "\nContent-Type: application/x-www-form-urlencoded\nContent-Length: "@ + last
        }),
{
    let first = "POST "@ + t.path + " HTTP/1.0\nHost: "@ + t.host;
    let last = decimal(encode_utf8(body).len()) + "\nConnection: close\n\n"@ + body;
    assert(post_request(t, body) =~= first
        + "\nContent-Type: application/x-www-form-urlencoded\nContent-Length: "@ + last);
}

/// A deletion is asked for at the path and host of its target, with the token.
pub proof fn deletions_carry_the_token(t: TargetView, token: Seq<char>)
    ensures
        ({
            let first = "DELETE "@ + t.path + " HTTP/1.0\nHost: "@ + t.host;
            let last = token + "\nConnection: close\n\n"@;
            delete_request(t, token) == first + "\nGuacamole-Token: "@ + last
        }),
{
    let first = "DELETE "@ + t.path + " HTTP/1.0\nHost: "@ + t.host;
    let last = token + "\nConnection: close\n\n"@;
    assert(delete_request(t, token) =~= first + "\nGuacamole-Token: "@ + last);
}

/// A response with an empty line says what stands four bytes behind its start, and
/// can be read exactly where it can be cut there.
pub proof fn responses_are_read_behind_the_empty_line(head: Seq<u8>, rest: Seq<u8>)
    requires
        forall|j: int|
            0 <= j < head.len() && #[trigger] head[j] == 10 ==> j + 1 < head.len() && head[j + 1]
                != 10,
    ensures
        ({
            let b = head + seq![10u8, 10u8] + rest;
            &&& readable(b) <==> is_char_boundary(b, head.len() as int + 4)
            &&& rest.len() >= 2 ==> response_text(b) == Ok::<Seq<char>, Seq<char>>(
                decode_utf8(rest.skip(2)),
            )
        }),
{
    let gap = seq![10u8, 10u8];
    let b = head + gap + rest;
    let n = head.len() as int;
    assert(b.skip(n) =~= gap + rest);
    assert((gap + rest).subrange(0, 2) =~= gap);
    assert forall|j: int| 0 <= j < n implies !gap.is_prefix_of(#[trigger] b.skip(j)) by {
        if gap.is_prefix_of(b.skip(j)) {
            assert(b.skip(j)[0] == gap[0]);
            assert(b.skip(j)[1] == gap[1]);
            assert(head[j] == 10 && b[j + 1] == 10);
        }
    }
    lemma_position_at(b, gap, n);
    if rest.len() >= 2 {
        assert(b.skip(n + 4) =~= rest.skip(2));
    }
}

/// A response without an empty line says what stands from its first brace on; one
/// without a brace either is complained of, with its first hundred bytes.
pub proof fn other_responses_are_read_from_a_brace(b: Seq<u8>)
    requires
        forall|j: int| 0 <= j < b.len() - 1 ==> !((#[trigger] b[j]) == 10 && b[j + 1] == 10),
    ensures
        forall|i: int|
            0 <= i < b.len() && #[trigger] b[i] == 123 && (forall|j: int|
                0 <= j < i ==> #[trigger] b[j] != 123) ==> readable(b) && response_text(b) == Ok::<
                Seq<char>,
                Seq<char>,
            >(decode_utf8(b.skip(i))),
        (forall|j: int| 0 <= j < b.len() ==> #[trigger] b[j] != 123) ==> {
            let n = if b.len() < 100 {
                b.len() as int
            } else {
                100
            };
            &&& readable(b) <==> is_char_boundary(b, n)
            &&& response_text(b) == Err::<Seq<char>, Seq<char>>(
                "Unexpected response: "@ + decode_utf8(b.take(n)),
            )
        },
{
    let gap = seq![10u8, 10u8];
    let open = seq![123u8];
    assert forall|j: int| 0 <= j <= b.len() implies !gap.is_prefix_of(#[trigger] b.skip(j)) by {
        if gap.is_prefix_of(b.skip(j)) {
            assert(b.skip(j)[0] == gap[0]);
            assert(b.skip(j)[1] == gap[1]);
            assert(b[j] == 10 && b[j + 1] == 10);
        }
    }
    lemma_position_none(b, gap);
    assert forall|i: int|
        0 <= i < b.len() && #[trigger] b[i] == 123 && (forall|j: int|
            0 <= j < i ==> #[trigger] b[j] != 123) implies readable(b) && response_text(b) == Ok::<
        Seq<char>,
        Seq<char>,
    >(decode_utf8(b.skip(i))) by {
        assert(b.skip(i).subrange(0, 1) =~= open);
        assert forall|j: int| 0 <= j < i implies !open.is_prefix_of(#[trigger] b.skip(j)) by {
            if open.is_prefix_of(b.skip(j)) {
                assert(b.skip(j)[0] == open[0]);
                assert(b[j] == 123);
            }
        }
        lemma_position_at(b, open, i);
    }
    if forall|j: int| 0 <= j < b.len() ==> #[trigger] b[j] != 123 {
        assert forall|j: int| 0 <= j <= b.len() implies !open.is_prefix_of(
            #[trigger] b.skip(j),
        ) by {
            if open.is_prefix_of(b.skip(j)) {
                assert(b.skip(j)[0] == open[0]);
                assert(b[j] == 123);
            }
        }
        lemma_position_none(b, open);
    }
}

/// Of the addresses that a request was forwarded for the first counts, trimmed,
/// whatever comes behind it.
pub proof fn first_address_counts(first: Seq<char>, more: Seq<char>)
    requires
        !first.contains(','),
    ensures
        first_address(first) == trimmed(first),
        first_address(first + ","@ + more) == trimmed(first),
{
    reveal_strlit(",");
    assert(","@ =~= seq![',']);
    lemma_no_char(first, ',', ","@);
    lemma_first_char(first, ',', more, ","@);
}

} // verus!
