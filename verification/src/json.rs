//! JSON documents, as far as the service looks into them.

#[allow(unused_imports)]
use crate::numerals::digit;
#[allow(unused_imports)]
use crate::text::texts;
use vstd::prelude::*;
use vstd::string::*;

verus! {

/// `serde_json::Value`, a JSON document. Only its string members are looked at.
#[verifier::external_type_specification]
#[verifier::external_body]
pub struct ExJsonValue(serde_json::Value);

/// `serde_json::Error`, why a text is not the JSON that was asked for. Nothing
/// inside it is looked at.
#[verifier::external_type_specification]
#[verifier::external_body]
pub struct ExJsonError(serde_json::Error);

/// The members of a JSON object that are strings. A document that is no object
/// has none.
pub uninterp spec fn string_members(v: serde_json::Value) -> Map<Seq<char>, Seq<char>>;

/// The string members of the document that a text holds, where it holds one.
pub uninterp spec fn parsed_members(text: Seq<char>) -> Option<Map<Seq<char>, Seq<char>>>;

/// A character inside a JSON string. Quotes, backslashes and control characters
/// are escaped.
pub open spec fn escaped_char(c: char) -> Seq<char> {
    if c == '"' || c == '\\' {
        seq!['\\', c]
    } else if c == '\u{8}' {
        seq!['\\', 'b']
    } else if c == '\t' {
        seq!['\\', 't']
    } else if c == '\n' {
        seq!['\\', 'n']
    } else if c == '\u{c}' {
        seq!['\\', 'f']
    } else if c == '\r' {
        seq!['\\', 'r']
    } else if ' ' > c {
        seq!['\\', 'u', '0', '0', digit(c as nat / 16, false), digit(c as nat % 16, false)]
    } else {
        seq![c]
    }
}

/// A text inside a JSON string.
pub open spec fn escaped(s: Seq<char>) -> Seq<char>
    decreases s.len(),
{
    if s.len() == 0 {
        seq![]
    } else {
        escaped(s.drop_last()) + escaped_char(s.last())
    }
}

/// A text as a JSON string.
pub open spec fn json_string(s: Seq<char>) -> Seq<char> {
    seq!['"'] + escaped(s) + seq!['"']
}

/// Texts as JSON strings, with commas between them.
pub open spec fn json_strings(list: Seq<Seq<char>>) -> Seq<char>
    decreases list.len(),
{
    if list.len() == 0 {
        seq![]
    } else if list.len() == 1 {
        json_string(list[0])
    } else {
        json_strings(list.drop_last()) + seq![','] + json_string(list.last())
    }
}

/// The JSON array that a list of texts is written as.
pub open spec fn written_texts(list: Seq<Seq<char>>) -> Seq<char> {
    seq!['['] + json_strings(list) + seq![']']
}

/// The list of texts that a JSON array of strings reads as.
pub uninterp spec fn read_texts(text: Seq<char>) -> Option<Seq<Seq<char>>>;

/// Calls `serde_json::from_str` for a `Value`. Which documents it accepts and
/// what their string members are depends on the text alone.
#[verifier::external_body]
fn parse_document(text: &str) -> (r: Result<serde_json::Value, serde_json::Error>)
    ensures
        match r {
            Ok(v) => parsed_members(text@) == Some(string_members(v)),
            Err(_) => parsed_members(text@) is None,
        },
{
    serde_json::from_str::<serde_json::Value>(text)
}

/// Calls `serde_json::Value::get` and takes the member, if it is there, as a
/// string with `as_str`.
#[verifier::external_body]
fn get_string<'a>(v: &'a serde_json::Value, key: &str) -> (r: Option<&'a str>)
    ensures
        match r {
            Some(t) => string_members(*v).contains_key(key@) && t@ == string_members(*v)[key@],
            None => !string_members(*v).contains_key(key@),
        },
{
    v.get(key).and_then(|member| member.as_str())
}

/// Calls `serde_json::to_string` on a list of strings. Writing fails only for
/// types that refuse it and for maps with keys that are no strings, so it
/// succeeds here; what is written is the array of the strings, without white
/// space, and reads back as the same list.
#[verifier::external_body]
fn write_list(list: &Vec<String>) -> (r: Result<String, serde_json::Error>)
    ensures
        match r {
            Ok(t) => t@ == written_texts(texts(list@)) && read_texts(t@) == Some(texts(list@)),
            Err(_) => false,
        },
{
    serde_json::to_string(list)
}

/// Calls `serde_json::from_str` for a list of strings. Which texts it accepts
/// and what it reads depends on the text alone.
#[verifier::external_body]
fn read_list(text: &str) -> (r: Result<Vec<String>, serde_json::Error>)
    ensures
        match r {
            Ok(list) => read_texts(text@) == Some(texts(list@)),
            Err(_) => read_texts(text@) is None,
        },
{
    serde_json::from_str::<Vec<String>>(text)
}

/// The string under `key`, or the empty string.
pub fn member_or_empty(v: &serde_json::Value, key: &str) -> (r: String)
    ensures
        r@ == if string_members(*v).contains_key(key@) {
            string_members(*v)[key@]
        } else {
            Seq::<char>::empty()
        },
{
    match get_string(v, key) {
        Some(t) => t.to_owned(),
        None => String::new(),
    }
}

/// What a text says of one string member of the JSON object it holds.
pub enum Member {
    /// The text is no JSON document.
    NoDocument,
    /// The document has no such string member.
    Absent,
    /// The member.
    Text(String),
}

/// The contents of a [`Member`].
pub enum MemberView {
    /// The text is no JSON document.
    NoDocument,
    /// The document has no such string member.
    Absent,
    /// The member.
    Text(Seq<char>),
}

impl View for Member {
    type V = MemberView;

    open spec fn view(&self) -> MemberView {
        match self {
            Member::NoDocument => MemberView::NoDocument,
            Member::Absent => MemberView::Absent,
            Member::Text(t) => MemberView::Text(t@),
        }
    }
}

/// What `text` says of the string member `key`.
pub open spec fn member_of(text: Seq<char>, key: Seq<char>) -> MemberView {
    match parsed_members(text) {
        None => MemberView::NoDocument,
        Some(m) => if m.contains_key(key) {
            MemberView::Text(m[key])
        } else {
            MemberView::Absent
        },
    }
}

/// Reads one string member of the JSON object that a text holds.
pub fn read_member(text: &str, key: &str) -> (r: Member)
    ensures
        r@ == member_of(text@, key@),
{
    match parse_document(text) {
        Ok(v) => match get_string(&v, key) {
            Some(t) => Member::Text(t.to_owned()),
            None => Member::Absent,
        },
        Err(_) => Member::NoDocument,
    }
}

/// The JSON array of a list of texts.
pub fn texts_to_json(list: &Vec<String>) -> (r: String)
    ensures
        r@ == written_texts(texts(list@)),
        read_texts(r@) == Some(texts(list@)),
{
    match write_list(list) {
        Ok(t) => t,
        Err(_) => String::new(),
    }
}

/// The list of texts in a JSON array; empty where the text is no such array.
pub fn texts_from_json(text: &str) -> (r: Vec<String>)
    ensures
        texts(r@) == match read_texts(text@) {
            Some(list) => list,
            None => Seq::<Seq<char>>::empty(),
        },
{
    match read_list(text) {
        Ok(list) => list,
        Err(_) => {
            let none: Vec<String> = Vec::new();
            assert(texts(none@) =~= Seq::<Seq<char>>::empty());
            none
        },
    }
}

} // verus!
