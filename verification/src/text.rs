//! Text as sequences of characters: comparing, trimming, searching, splitting.

use vstd::prelude::*;
use vstd::slice::*;
use vstd::string::*;
use vstd::utf8::*;

verus! {

/// `String::push` appends the character to the end of the string.
pub assume_specification[ String::push ](s: &mut String, c: char)
    ensures
        final(s)@ == old(s)@.push(c),
;

/// The characters with the Unicode property `White_Space`.
pub open spec fn white_space(c: char) -> bool {
    ||| '\u{9}' <= c <= '\u{d}'
    ||| c == ' '
    ||| c == '\u{85}'
    ||| c == '\u{a0}'
    ||| c == '\u{1680}'
    ||| '\u{2000}' <= c <= '\u{200a}'
    ||| c == '\u{2028}'
    ||| c == '\u{2029}'
    ||| c == '\u{202f}'
    ||| c == '\u{205f}'
    ||| c == '\u{3000}'
}

/// `s` without its leading white space.
pub open spec fn trimmed_start(s: Seq<char>) -> Seq<char>
    decreases s.len(),
{
    if s.len() > 0 && white_space(s[0]) {
        trimmed_start(s.drop_first())
    } else {
        s
    }
}

/// `s` without its trailing white space.
pub open spec fn trimmed_end(s: Seq<char>) -> Seq<char>
    decreases s.len(),
{
    if s.len() > 0 && white_space(s.last()) {
        trimmed_end(s.drop_last())
    } else {
        s
    }
}

/// `s` without its leading and trailing white space.
pub open spec fn trimmed(s: Seq<char>) -> Seq<char> {
    trimmed_end(trimmed_start(s))
}

/// `s` after as many leading copies of `p` as there are have been taken off.
pub open spec fn without_prefixes(s: Seq<char>, p: Seq<char>) -> Seq<char>
    decreases s.len(),
{
    if 0 < p.len() && p.is_prefix_of(s) {
        without_prefixes(s.skip(p.len() as int), p)
    } else {
        s
    }
}

/// `s` after every trailing `c` has been taken off.
pub open spec fn without_suffixes(s: Seq<char>, c: char) -> Seq<char>
    decreases s.len(),
{
    if s.len() > 0 && s.last() == c {
        without_suffixes(s.drop_last(), c)
    } else {
        s
    }
}

/// The place in `s` where `p` occurs first.
pub open spec fn position<A>(s: Seq<A>, p: Seq<A>) -> Option<int>
    decreases s.len(),
{
    if p.is_prefix_of(s) {
        Some(0)
    } else if s.len() == 0 {
        None
    } else {
        match position(s.drop_first(), p) {
            Some(i) => Some(i + 1),
            None => None,
        }
    }
}

/// What stands in `s` before the first `sep`: all of `s` where there is none.
pub open spec fn before(s: Seq<char>, sep: Seq<char>) -> Seq<char> {
    match position(s, sep) {
        Some(i) => s.take(i),
        None => s,
    }
}

/// What stands in `s` after the first `sep`, where there is one.
pub open spec fn after(s: Seq<char>, sep: Seq<char>) -> Option<Seq<char>> {
    match position(s, sep) {
        Some(i) => Some(s.skip(i + sep.len())),
        None => None,
    }
}

/// The pieces of `s` between the occurrences of the character `sep`, in order.
pub open spec fn pieces(s: Seq<char>, sep: char) -> Seq<Seq<char>>
    decreases s.len(),
{
    match position(s, seq![sep]) {
        Some(i) => if 0 <= i < s.len() {
            seq![s.take(i)] + pieces(s.skip(i + 1), sep)
        } else {
            seq![s]
        },
        None => seq![s],
    }
}

/// A found position leaves room for what was found.
pub proof fn lemma_position<A>(s: Seq<A>, p: Seq<A>)
    ensures
        position(s, p) matches Some(i) ==> 0 <= i && i + p.len() <= s.len() && s.subrange(
            i,
            i + p.len(),
        ) == p,
    decreases s.len(),
{
    if p.is_prefix_of(s) {
        assert(s.subrange(0, p.len() as int) =~= p);
    } else if s.len() > 0 {
        lemma_position(s.drop_first(), p);
        match position(s.drop_first(), p) {
            Some(i) => {
                assert(s.subrange(i + 1, i + 1 + p.len()) =~= s.drop_first().subrange(
                    i,
                    i + p.len(),
                ));
            },
            None => {},
        }
    }
}

/// The position is the first place where `p` stands.
pub proof fn lemma_position_at<A>(s: Seq<A>, p: Seq<A>, i: int)
    requires
        0 <= i <= s.len(),
        p.is_prefix_of(s.skip(i)),
        forall|j: int| 0 <= j < i ==> !p.is_prefix_of(#[trigger] s.skip(j)),
    ensures
        position(s, p) == Some(i),
    decreases s.len(),
{
    assert(s.skip(0) =~= s);
    if i > 0 {
        let t = s.drop_first();
        assert(t.skip(i - 1) =~= s.skip(i));
        assert forall|j: int| 0 <= j < i - 1 implies !p.is_prefix_of(#[trigger] t.skip(j)) by {
            assert(t.skip(j) =~= s.skip(j + 1));
        }
        lemma_position_at(t, p, i - 1);
    }
}

/// Where `p` stands nowhere there is no position.
pub proof fn lemma_position_none<A>(s: Seq<A>, p: Seq<A>)
    requires
        forall|j: int| 0 <= j <= s.len() ==> !p.is_prefix_of(#[trigger] s.skip(j)),
    ensures
        position(s, p) is None,
    decreases s.len(),
{
    assert(s.skip(0) =~= s);
    if s.len() > 0 {
        let t = s.drop_first();
        assert forall|j: int| 0 <= j <= t.len() implies !p.is_prefix_of(#[trigger] t.skip(j)) by {
            assert(t.skip(j) =~= s.skip(j + 1));
        }
        lemma_position_none(t, p);
    }
}

/// Whether two texts hold the same characters.
pub fn same(a: &str, b: &str) -> (r: bool)
    ensures
        r == (a@ == b@),
{
    let x = a.as_bytes();
    let y = b.as_bytes();
    proof {
        encode_utf8_decode_utf8(a@);
        encode_utf8_decode_utf8(b@);
    }
    if x.len() != y.len() {
        return false;
    }
    let mut i: usize = 0;
    while i < x.len()
        invariant
            i <= x@.len(),
            x@.len() == y@.len(),
            x@ == encode_utf8(a@),
            y@ == encode_utf8(b@),
            forall|j: int| 0 <= j < i ==> x@[j] == y@[j],
        decreases x@.len() - i,
    {
        if x[i] != y[i] {
            return false;
        }
        i += 1;
    }
    assert(x@ =~= y@);
    true
}

/// The characters of a text.
pub fn chars_of(s: &str) -> (r: Vec<char>)
    ensures
        r@ == s@,
{
    let mut r: Vec<char> = Vec::new();
    for c in it: s.chars()
        invariant
            it.seq() == s@,
            r@ == s@.take(it.index() as int),
    {
        r.push(c);
        assert(r@ =~= s@.take(it.index() + 1));
    }
    assert(r@ =~= s@);
    r
}

/// The text with the given characters.
pub fn string_of(v: &[char]) -> (r: String)
    ensures
        r@ == v@,
{
    let mut r = String::new();
    let mut i: usize = 0;
    while i < v.len()
        invariant
            i <= v@.len(),
            r@ == v@.take(i as int),
        decreases v@.len() - i,
    {
        r.push(v[i]);
        i += 1;
        assert(r@ =~= v@.take(i as int));
    }
    assert(r@ =~= v@);
    r
}

/// Whether the character is white space.
pub fn is_white_space(c: char) -> (r: bool)
    ensures
        r == white_space(c),
{
    ('\u{9}' <= c && c <= '\u{d}') || c == ' ' || c == '\u{85}' || c == '\u{a0}' || c == '\u{1680}'
        || ('\u{2000}' <= c && c <= '\u{200a}') || c == '\u{2028}' || c == '\u{2029}' || c
        == '\u{202f}' || c == '\u{205f}' || c == '\u{3000}'
}

/// The text without leading and trailing white space.
pub fn trim(s: &str) -> (r: String)
    ensures
        r@ == trimmed(s@),
{
    let v = chars_of(s);
    let mut i: usize = 0;
    assert(v@.skip(0) =~= v@);
    while i < v.len() && is_white_space(v[i])
        invariant
            i <= v@.len(),
            v@ == s@,
            trimmed_start(s@) == trimmed_start(v@.skip(i as int)),
        decreases v@.len() - i,
    {
        assert(v@.skip(i as int).drop_first() =~= v@.skip(i + 1));
        i += 1;
    }
    let ghost t = v@.skip(i as int);
    let mut j: usize = v.len();
    assert(v@.subrange(i as int, j as int) =~= t);
    while i < j && is_white_space(v[j - 1])
        invariant
            i <= j <= v@.len(),
            trimmed_end(t) == trimmed_end(v@.subrange(i as int, j as int)),
        decreases j - i,
    {
        assert(v@.subrange(i as int, j as int).drop_last() =~= v@.subrange(i as int, j - 1));
        j -= 1;
    }
    string_of(slice_subrange(v.as_slice(), i, j))
}

/// Whether `p` stands in `s` at the place `i`.
fn occurs_at(s: &[char], p: &[char], i: usize) -> (r: bool)
    requires
        i <= s@.len(),
    ensures
        r == p@.is_prefix_of(s@.skip(i as int)),
{
    let n: usize = s.len();
    if n - i < p.len() {
        return false;
    }
    let mut k: usize = 0;
    while k < p.len()
        invariant
            k <= p@.len(),
            n == s@.len(),
            i + p@.len() <= n,
            forall|j: int| 0 <= j < k ==> s@[i + j] == p@[j],
        decreases p@.len() - k,
    {
        if s[i + k] != p[k] {
            assert(s@.skip(i as int)[k as int] != p@[k as int]);
            return false;
        }
        k += 1;
    }
    assert(p@ =~= s@.skip(i as int).subrange(0, p@.len() as int));
    true
}

/// The first place of `p` in `s`.
pub fn find(s: &[char], p: &[char]) -> (r: Option<usize>)
    ensures
        match r {
            Some(i) => position(s@, p@) == Some(i as int) && i + p@.len() <= s@.len(),
            None => position(s@, p@) is None,
        },
{
    proof {
        lemma_position(s@, p@);
    }
    let mut i: usize = 0;
    assert(s@.skip(0) =~= s@);
    loop
        invariant
            i <= s@.len(),
            position(s@, p@) == match position(s@.skip(i as int), p@) {
                Some(k) => Some(k + i),
                None => None::<int>,
            },
            position(s@, p@) matches Some(k) ==> k + p@.len() <= s@.len(),
        decreases s@.len() - i,
    {
        if occurs_at(s, p, i) {
            return Some(i);
        }
        if i == s.len() {
            return None;
        }
        assert(s@.skip(i as int).drop_first() =~= s@.skip(i + 1));
        i += 1;
    }
}

/// Whether `p` stands anywhere in `s`.
pub fn contains(s: &str, p: &str) -> (r: bool)
    ensures
        r == (position(s@, p@) is Some),
{
    let v = chars_of(s);
    let w = chars_of(p);
    find(v.as_slice(), w.as_slice()).is_some()
}

/// Whether `s` begins with `p`.
pub fn starts_with(s: &str, p: &str) -> (r: bool)
    ensures
        r == p@.is_prefix_of(s@),
{
    let v = chars_of(s);
    let w = chars_of(p);
    assert(v@.skip(0) =~= v@);
    occurs_at(v.as_slice(), w.as_slice(), 0)
}

/// The text before the first `sep`.
pub fn text_before(s: &str, sep: &str) -> (r: String)
    ensures
        r@ == before(s@, sep@),
{
    let v = chars_of(s);
    let w = chars_of(sep);
    match find(v.as_slice(), w.as_slice()) {
        Some(i) => string_of(slice_subrange(v.as_slice(), 0, i)),
        None => string_of(v.as_slice()),
    }
}

/// The text after the first `sep`.
pub fn text_after(s: &str, sep: &str) -> (r: Option<String>)
    ensures
        match r {
            Some(t) => after(s@, sep@) == Some(t@),
            None => after(s@, sep@) is None,
        },
{
    let v = chars_of(s);
    let w = chars_of(sep);
    let n: usize = v.len();
    match find(v.as_slice(), w.as_slice()) {
        Some(i) => Some(string_of(slice_subrange(v.as_slice(), i + w.len(), n))),
        None => None,
    }
}

/// The views of a list of texts.
pub open spec fn texts(v: Seq<String>) -> Seq<Seq<char>> {
    v.map_values(|t: String| t@)
}

/// The pieces of a text between the occurrences of `sep`.
pub fn split(s: &str, sep: char) -> (r: Vec<String>)
    ensures
        texts(r@) == pieces(s@, sep),
{
    let v = chars_of(s);
    let mut w: Vec<char> = Vec::new();
    w.push(sep);
    assert(w@ =~= seq![sep]);
    let mut r: Vec<String> = Vec::new();
    let mut from: usize = 0;
    assert(v@.skip(0) =~= v@);
    assert(texts(r@) + pieces(v@.skip(0), sep) =~= pieces(s@, sep));
    loop
        invariant
            from <= v@.len(),
            w@ == seq![sep],
            texts(r@) + pieces(v@.skip(from as int), sep) == pieces(s@, sep),
        decreases v@.len() - from,
    {
        let rest = slice_subrange(v.as_slice(), from, v.len());
        assert(rest@ =~= v@.skip(from as int));
        let ghost done = texts(r@);
        match find(rest, w.as_slice()) {
            Some(i) => {
                let piece = string_of(slice_subrange(rest, 0, i));
                assert(piece@ =~= rest@.take(i as int));
                r.push(piece);
                assert(texts(r@) =~= done.push(piece@));
                assert(rest@.skip(i + 1) =~= v@.skip(from + i + 1));
                assert(done + (seq![rest@.take(i as int)] + pieces(rest@.skip(i + 1), sep))
                    =~= texts(r@) + pieces(v@.skip(from + i + 1), sep));
                from = from + i + 1;
            },
            None => {
                let piece = string_of(rest);
                r.push(piece);
                assert(texts(r@) =~= done + seq![rest@]);
                return r;
            },
        }
    }
}

/// The text without leading copies of `p`.
pub fn trim_start_matches(s: &str, p: &str) -> (r: String)
    requires
        p@.len() > 0,
    ensures
        r@ == without_prefixes(s@, p@),
{
    let v = chars_of(s);
    let w = chars_of(p);
    let n: usize = v.len();
    let mut i: usize = 0;
    assert(v@.skip(0) =~= v@);
    while occurs_at(v.as_slice(), w.as_slice(), i)
        invariant
            i <= n == v@.len(),
            w@.len() > 0,
            without_prefixes(s@, w@) == without_prefixes(v@.skip(i as int), w@),
        decreases v@.len() - i,
    {
        assert(v@.skip(i as int).skip(w@.len() as int) =~= v@.skip(i + w@.len()));
        i += w.len();
    }
    string_of(slice_subrange(v.as_slice(), i, n))
}

/// The text without trailing copies of `c`.
pub fn trim_end_matches(s: &str, c: char) -> (r: String)
    ensures
        r@ == without_suffixes(s@, c),
{
    let v = chars_of(s);
    let mut j: usize = v.len();
    assert(v@.take(j as int) =~= v@);
    while 0 < j && v[j - 1] == c
        invariant
            j <= v@.len(),
            without_suffixes(s@, c) == without_suffixes(v@.take(j as int), c),
        decreases j,
    {
        assert(v@.take(j as int).drop_last() =~= v@.take(j - 1));
        j -= 1;
    }
    string_of(slice_subrange(v.as_slice(), 0, j))
}

} // verus!
