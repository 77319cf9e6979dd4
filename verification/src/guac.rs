//! The remote-desktop gateway: asking it for a token, and taking a connection
//! away from it when a session ends.

use crate::auth::validate_tech_token;
#[allow(unused_imports)]
use crate::auth::{tech_seen_by, tech_token_valid};
use crate::base64::base64_decode;
#[allow(unused_imports)]
use crate::base64::{base64_bytes, base64_encoded, base64_round_trip, padding_is_passed_over, PAD};
use crate::config::or_default;
#[allow(unused_imports)]
use crate::config::setting_or;
use crate::json::{read_member, Member};
#[allow(unused_imports)]
use crate::json::{member_of, MemberView};
use crate::model::TechSession;
use crate::reply::{refuse, Reply, Status};
#[allow(unused_imports)]
use crate::reply::{refused, ReplyView};
use crate::table::Table;
#[allow(unused_imports)]
use crate::text::{after, before, lemma_position_at, lemma_position_none, position, without_suffixes};
use crate::text::{text_after, text_before, trim_end_matches};
use vstd::prelude::*;
use vstd::string::*;
use vstd::utf8::*;

verus! {

/// How the gateway is reached.
#[derive(Debug)]
pub struct GuacConfig {
    /// Its address.
    pub base: String,
    /// The user to log in as.
    pub user: String,
    /// The password to log in with.
    pub password: String,
}

/// The contents of a [`GuacConfig`].
#[verifier::ext_equal]
pub struct GuacView {
    /// Its address.
    pub base: Seq<char>,
    /// The user to log in as.
    pub user: Seq<char>,
    /// The password to log in with.
    pub password: Seq<char>,
}

impl View for GuacConfig {
    type V = GuacView;

    open spec fn view(&self) -> GuacView {
        GuacView { base: self.base@, user: self.user@, password: self.password@ }
    }
}

/// How the gateway is reached, from the settings.
pub fn guac_config(
    url: Option<String>,
    user: Option<String>,
    password: Option<String>,
) -> (r: GuacConfig)
    ensures
        r.base@ == setting_or(url, seq![]),
        r.user@ == setting_or(user, "guacadmin"@),
        r.password@ == setting_or(password, seq![]),
{
    let base = match url {
        Some(s) => s,
        None => String::new(),
    };
    let password = match password {
        Some(s) => s,
        None => String::new(),
    };
    GuacConfig { base, user: or_default(user, "guacadmin"), password }
}

/// Whether there is a gateway to ask.
pub open spec fn configured(c: GuacView) -> bool {
    c.base.len() > 0 && c.password.len() > 0
}

/// Where the gateway gives out tokens.
pub open spec fn token_url(c: GuacView) -> Seq<char> {
    without_suffixes(c.base, '/') + "/api/tokens"@
}

/// What the gateway is sent to log in.
pub open spec fn token_body(c: GuacView) -> Seq<char> {
    "username="@ + c.user + "&password="@ + c.password
}

/// Where the gateway keeps a connection.
pub open spec fn connection_url(c: GuacView, id: Seq<char>) -> Seq<char> {
    without_suffixes(c.base, '/') + "/api/session/data/postgresql/connections/"@ + id
}

fn token_url_of(c: &GuacConfig) -> (r: String)
    ensures
        r@ == token_url(c@),
{
    let mut r = trim_end_matches(c.base.as_str(), '/');
    r.append("/api/tokens");
    r
}

fn token_body_of(c: &GuacConfig) -> (r: String)
    ensures
        r@ == token_body(c@),
{
    let mut r = "username=".to_owned();
    r.append(c.user.as_str());
    r.append("&password=");
    r.append(c.password.as_str());
    r
}

fn connection_url_of(c: &GuacConfig, id: &str) -> (r: String)
    ensures
        r@ == connection_url(c@, id@),
{
    let mut r = trim_end_matches(c.base.as_str(), '/');
    r.append("/api/session/data/postgresql/connections/");
    r.append(id);
    r
}

/// The id of the connection that a desktop address leads to. What stands
/// between the first and the second `/#/client/` is the Base64 of the id, a zero
/// character and more.
pub open spec fn connection_id(url: Seq<char>) -> Option<Seq<char>> {
    match after(url, "/#/client/"@) {
        None => None,
        Some(rest) => {
            let encoded = before(rest, "/#/client/"@);
            let bytes = base64_bytes(encode_utf8(encoded));
            if valid_utf8(bytes) {
                Some(before(decode_utf8(bytes), "\0"@))
            } else {
                None
            }
        },
    }
}

proof fn lemma_encoding_joins(a: Seq<char>, b: Seq<char>)
    ensures
        encode_utf8(a + b) == encode_utf8(a) + encode_utf8(b),
    decreases a.len(),
{
    if a.len() == 0 {
        assert(a + b =~= b);
        assert(encode_utf8(a) + encode_utf8(b) =~= encode_utf8(b));
    } else {
        lemma_encoding_joins(a.drop_first(), b);
        assert((a + b).drop_first() =~= a.drop_first() + b);
        assert(encode_utf8(a + b) =~= encode_utf8(a) + encode_utf8(b));
    }
}

/// Padding behind a Base64 text does not change what it decodes to.
proof fn lemma_padded_text(encoded: Seq<char>, pads: Seq<char>)
    requires
        forall|i: int| 0 <= i < pads.len() ==> pads[i] == '=',
    ensures
        base64_bytes(encode_utf8(encoded + pads)) == base64_bytes(encode_utf8(encoded)),
{
    lemma_encoding_joins(encoded, pads);
    assert(is_ascii_chars(pads));
    is_ascii_chars_encode_utf8(pads);
    assert forall|i: int| 0 <= i < encode_utf8(pads).len() implies encode_utf8(pads)[i] == PAD by {
        assert(pads[i] as u8 == encode_utf8(pads)[i]);
    }
    padding_is_passed_over(encode_utf8(encoded), encode_utf8(pads));
}

/// The id of the connection that a desktop address leads to.
pub fn connection_id_of(url: &str) -> (r: Option<String>)
    ensures
        match r {
            Some(id) => connection_id(url@) == Some(id@),
            None => connection_id(url@) is None,
        },
{
    let rest = match text_after(url, "/#/client/") {
        Some(t) => t,
        None => return None,
    };
    let mut padded = text_before(rest.as_str(), "/#/client/");
    let ghost encoded = padded@;
    let n: usize = padded.as_str().as_bytes().len();
    let count: usize = 2 * ((4 - n % 4) % 4);
    let mut i: usize = 0;
    assert(encoded + Seq::new(0, |i: int| '=') =~= encoded);
    while i < count
        invariant
            i <= count,
            padded@ == encoded + Seq::new(i as nat, |i: int| '='),
        decreases count - i,
    {
        padded.push('=');
        i += 1;
        assert(padded@ =~= encoded + Seq::new(i as nat, |i: int| '='));
    }
    proof {
        lemma_padded_text(encoded, Seq::new(count as nat, |i: int| '='));
    }
    match base64_decode(padded.as_str()) {
        Ok(decoded) => Some(text_before(decoded.as_str(), "\0")),
        Err(_) => None,
    }
}

/// ASCII bytes as characters.
pub open spec fn ascii_text(b: Seq<u8>) -> Seq<char> {
    Seq::new(b.len(), |i: int| b[i] as char)
}

proof fn lemma_base64_letters(b: Seq<u8>)
    ensures
        forall|i: int|
            0 <= i < base64_encoded(b).len() ==> (#[trigger] base64_encoded(b)[i]) < 128
                && base64_encoded(b)[i] != 35,
    decreases b.len(),
{
    let e = base64_encoded(b);
    if b.len() > 2 {
        let rest = base64_encoded(b.skip(3));
        lemma_base64_letters(b.skip(3));
        assert forall|i: int| 0 <= i < e.len() implies (#[trigger] e[i]) < 128 && e[i] != 35 by {
            if i >= 4 {
                assert(e[i] == rest[i - 4]);
            }
        }
    }
}

proof fn lemma_separator_has_hash()
    ensures
        "/#/client/"@.len() == 10,
        "/#/client/"@[1] == '#',
{
    reveal_strlit("/#/client/");
}

/// An address made of a part without `#`, `/#/client/` and the Base64 of a
/// connection id, a zero character and anything more, leads to that connection.
pub proof fn address_leads_to_its_connection(base: Seq<char>, id: Seq<char>, more: Seq<char>)
    requires
        !base.contains('#'),
        !id.contains('\0'),
    ensures
        connection_id(
            base + "/#/client/"@ + ascii_text(base64_encoded(encode_utf8(id + "\0"@ + more))),
        ) == Some(id),
{
    let sep = "/#/client/"@;
    let plain = id + "\0"@ + more;
    let letters = base64_encoded(encode_utf8(plain));
    let encoded = ascii_text(letters);
    let url = base + sep + encoded;
    lemma_separator_has_hash();
    lemma_base64_letters(encode_utf8(plain));
    // The separator stands first behind the base.
    assert(url.skip(base.len() as int) =~= sep + encoded);
    assert(sep.is_prefix_of(url.skip(base.len() as int))) by {
        assert((sep + encoded).subrange(0, sep.len() as int) =~= sep);
    }
    assert forall|j: int| 0 <= j < base.len() implies !sep.is_prefix_of(#[trigger] url.skip(j)) by {
        if sep.is_prefix_of(url.skip(j)) {
            assert(url.skip(j)[1] == sep[1]);
            assert(url[j + 1] == '#');
            if j + 1 < base.len() {
                assert(base[j + 1] == '#');
            } else {
                reveal_strlit("/#/client/");
                assert(url[j + 1] == sep[0]);
            }
        }
    }
    lemma_position_at(url, sep, base.len() as int);
    assert(url.skip(base.len() as int + sep.len()) =~= encoded);
    assert(after(url, sep) == Some(encoded));
    // It stands nowhere in the letters.
    assert forall|j: int| 0 <= j <= encoded.len() implies !sep.is_prefix_of(
        #[trigger] encoded.skip(j),
    ) by {
        if sep.is_prefix_of(encoded.skip(j)) {
            assert(encoded.skip(j)[1] == sep[1]);
            assert(encoded[j + 1] == letters[j + 1] as char);
        }
    }
    lemma_position_none(encoded, sep);
    assert(before(encoded, sep) == encoded);
    // The letters decode to the plain text.
    assert(is_ascii_chars(encoded));
    is_ascii_chars_encode_utf8(encoded);
    assert(encode_utf8(encoded) =~= letters) by {
        assert forall|i: int| 0 <= i < encoded.len() implies encode_utf8(encoded)[i]
            == letters[i] by {
            assert(encoded[i] as u8 == encode_utf8(encoded)[i]);
        }
    }
    base64_round_trip(encode_utf8(plain));
    encode_utf8_valid_utf8(plain);
    encode_utf8_decode_utf8(plain);
    // The id stands before the first zero character.
    let zero = "\0"@;
    reveal_strlit("\0");
    assert(plain.skip(id.len() as int) =~= zero + more);
    assert(zero.is_prefix_of(plain.skip(id.len() as int))) by {
        assert((zero + more).subrange(0, zero.len() as int) =~= zero);
    }
    assert forall|j: int| 0 <= j < id.len() implies !zero.is_prefix_of(#[trigger] plain.skip(j)) by {
        if zero.is_prefix_of(plain.skip(j)) {
            assert(plain.skip(j)[0] == zero[0]);
            assert(id[j] == '\0');
        }
    }
    lemma_position_at(plain, zero, id.len() as int);
    assert(plain.take(id.len() as int) =~= id);
}

/// What it takes to remove a connection from the gateway.
#[derive(Debug)]
pub struct Revocation {
    /// Where to ask for a token.
    pub token_url: String,
    /// What to send there.
    pub token_body: String,
    /// What to delete with the token.
    pub delete_url: String,
}

/// The contents of a [`Revocation`].
#[verifier::ext_equal]
pub struct RevocationView {
    /// Where to ask for a token.
    pub token_url: Seq<char>,
    /// What to send there.
    pub token_body: Seq<char>,
    /// What to delete with the token.
    pub delete_url: Seq<char>,
}

impl View for Revocation {
    type V = RevocationView;

    open spec fn view(&self) -> RevocationView {
        RevocationView {
            token_url: self.token_url@,
            token_body: self.token_body@,
            delete_url: self.delete_url@,
        }
    }
}

/// How access through a desktop address is taken away, where it can be: the
/// gateway must be configured and the address must lead to a connection.
pub open spec fn revocation(url: Seq<char>, c: GuacView) -> Option<RevocationView> {
    if configured(c) {
        match connection_id(url) {
            Some(id) => Some(
                RevocationView {
                    token_url: token_url(c),
                    token_body: token_body(c),
                    delete_url: connection_url(c, id),
                },
            ),
            None => None,
        }
    } else {
        None
    }
}

/// The contents of a revocation that may be missing.
pub open spec fn revocation_view(r: Option<Revocation>) -> Option<RevocationView> {
    match r {
        Some(v) => Some(v@),
        None => None,
    }
}

fn is_configured(c: &GuacConfig) -> (r: bool)
    ensures
        r == configured(c@),
{
    !c.base.as_str().is_empty() && !c.password.as_str().is_empty()
}

/// How access through a desktop address is taken away.
pub fn revocation_of(url: &str, c: &GuacConfig) -> (r: Option<Revocation>)
    ensures
        revocation_view(r) == revocation(url@, c@),
{
    if !is_configured(c) {
        return None;
    }
    match connection_id_of(url) {
        Some(id) => Some(
            Revocation {
                token_url: token_url_of(c),
                token_body: token_body_of(c),
                delete_url: connection_url_of(c, id.as_str()),
            },
        ),
        None => None,
    }
}

/// The token in the gateway's response, where there is one.
pub fn token_in(member: Member) -> (r: Option<String>)
    ensures
        match r {
            Some(t) => member@ == MemberView::Text(t@),
            None => !(member@ is Text),
        },
{
    match member {
        Member::Text(t) => Some(t),
        _ => None,
    }
}

/// The token in the gateway's response to a revocation, where there is one.
pub fn revocation_token(response: &str) -> (r: Option<String>)
    ensures
        match r {
            Some(t) => member_of(response@, "authToken"@) == MemberView::Text(t@),
            None => !(member_of(response@, "authToken"@) is Text),
        },
{
    token_in(read_member(response, "authToken"))
}

/// What a technician who asks for a gateway token is answered.
#[derive(Debug)]
pub enum GuacAnswer {
    /// The technician is not logged in.
    Refused(Reply),
    /// There is no token, for the reason given.
    Failed(String),
    /// The token, and where to use it.
    Granted {
        /// The token.
        token: String,
        /// The gateway's address.
        guac_url: String,
    },
}

/// The contents of a [`GuacAnswer`].
pub enum GuacAnswerView {
    /// The technician is not logged in.
    Refused(ReplyView),
    /// There is no token, for the reason given.
    Failed(Seq<char>),
    /// The token, and where to use it.
    Granted {
        /// The token.
        token: Seq<char>,
        /// The gateway's address.
        guac_url: Seq<char>,
    },
}

impl View for GuacAnswer {
    type V = GuacAnswerView;

    open spec fn view(&self) -> GuacAnswerView {
        match self {
            GuacAnswer::Refused(e) => GuacAnswerView::Refused(e@),
            GuacAnswer::Failed(m) => GuacAnswerView::Failed(m@),
            GuacAnswer::Granted { token, guac_url } => GuacAnswerView::Granted {
                token: token@,
                guac_url: guac_url@,
            },
        }
    }
}

/// A login at the gateway that is to be made.
#[derive(Debug)]
pub struct TokenRequest {
    /// Where to ask.
    pub url: String,
    /// What to send there.
    pub body: String,
}

/// What a technician is answered before the gateway is asked, if anything.
pub open spec fn early_answer(logged_in: bool, c: GuacView) -> Option<GuacAnswerView> {
    if !logged_in {
        Some(GuacAnswerView::Refused(refused(Status::Unauthorized, "Please log in first"@)))
    } else if !configured(c) {
        Some(GuacAnswerView::Failed("Guacamole not configured on server"@))
    } else {
        None
    }
}

/// Decides whether the gateway is asked for a token on a technician's behalf.
pub fn guac_token_request(
    techs: &Table<TechSession>,
    token: Option<&str>,
    c: &GuacConfig,
    now: u64,
) -> (r: Result<TokenRequest, GuacAnswer>)
    requires
        techs.wf(),
        token matches Some(t) ==> tech_seen_by(techs@, t@, now),
    ensures
        ({
            let logged_in = token matches Some(t) && tech_token_valid(techs@, t@, now);
            match r {
                Ok(ask) => {
                    &&& early_answer(logged_in, c@) is None
                    &&& ask.url@ == token_url(c@)
                    &&& ask.body@ == token_body(c@)
                },
                Err(a) => early_answer(logged_in, c@) == Some(a@),
            }
        }),
{
    let logged_in = match token {
        Some(t) => validate_tech_token(techs, t, now).is_some(),
        None => false,
    };
    if !logged_in {
        return Err(GuacAnswer::Refused(refuse(Status::Unauthorized, "Please log in first")));
    }
    if !is_configured(c) {
        return Err(GuacAnswer::Failed("Guacamole not configured on server".to_owned()));
    }
    Ok(TokenRequest { url: token_url_of(c), body: token_body_of(c) })
}

/// How asking the gateway went.
#[derive(Debug)]
pub enum TokenOutcome {
    /// It responded with this text.
    Responded(String),
    /// It could not be asked, or its response could not be read.
    Failed(String),
    /// The asking itself broke off.
    Aborted(String),
}

/// What a technician is answered when the gateway's response holds this.
pub open spec fn member_answer(member: MemberView, base: Seq<char>) -> GuacAnswerView {
    match member {
        MemberView::NoDocument => GuacAnswerView::Failed("Invalid Guacamole response"@),
        MemberView::Absent => GuacAnswerView::Failed("Guacamole login failed"@),
        MemberView::Text(t) => if t.len() == 0 {
            GuacAnswerView::Failed("Guacamole login failed"@)
        } else {
            GuacAnswerView::Granted { token: t, guac_url: base }
        },
    }
}

/// What a technician is answered once the gateway was asked.
pub open spec fn late_answer(outcome: TokenOutcome, base: Seq<char>) -> GuacAnswerView {
    match outcome {
        TokenOutcome::Responded(text) => member_answer(member_of(text@, "authToken"@), base),
        TokenOutcome::Failed(e) => GuacAnswerView::Failed("Guacamole error: "@ + e@),
        TokenOutcome::Aborted(e) => GuacAnswerView::Failed("Server error: "@ + e@),
    }
}

/// Answers a technician from what the gateway's response holds.
pub fn answer_from_member(member: Member, base: &str) -> (r: GuacAnswer)
    ensures
        r@ == member_answer(member@, base@),
{
    match member {
        Member::NoDocument => GuacAnswer::Failed("Invalid Guacamole response".to_owned()),
        Member::Absent => GuacAnswer::Failed("Guacamole login failed".to_owned()),
        Member::Text(t) => {
            if t.as_str().is_empty() {
                GuacAnswer::Failed("Guacamole login failed".to_owned())
            } else {
                GuacAnswer::Granted { token: t, guac_url: base.to_owned() }
            }
        },
    }
}

/// Answers a technician once the gateway was asked.
pub fn guac_token(outcome: TokenOutcome, base: &str) -> (r: GuacAnswer)
    ensures
        r@ == late_answer(outcome, base@),
{
    match outcome {
        TokenOutcome::Responded(text) => answer_from_member(
            read_member(text.as_str(), "authToken"),
            base,
        ),
        TokenOutcome::Failed(e) => {
            let mut m = "Guacamole error: ".to_owned();
            m.append(e.as_str());
            GuacAnswer::Failed(m)
        },
        TokenOutcome::Aborted(e) => {
            let mut m = "Server error: ".to_owned();
            m.append(e.as_str());
            GuacAnswer::Failed(m)
        },
    }
}

/// What a technician is answered, in all.
pub open spec fn whole_answer(
    logged_in: bool,
    c: GuacView,
    outcome: TokenOutcome,
) -> GuacAnswerView {
    match early_answer(logged_in, c) {
        Some(a) => a,
        None => late_answer(outcome, c.base),
    }
}

/// The answer tells nothing of the gateway's credentials, beyond whether a
/// password is set: with another user name and password it is the same.
pub proof fn answer_hides_the_credentials(
    logged_in: bool,
    c: GuacView,
    other: GuacView,
    outcome: TokenOutcome,
)
    requires
        c.base == other.base,
        (c.password.len() > 0) == (other.password.len() > 0),
    ensures
        whole_answer(logged_in, c, outcome) == whole_answer(logged_in, other, outcome),
{
}

/// Who is not logged in gets no token, whatever the gateway says.
pub proof fn no_token_without_login(c: GuacView, outcome: TokenOutcome)
    ensures
        !(whole_answer(false, c, outcome) is Granted),
{
}

} // verus!
