//! What the functions on text and numbers are for.

#[allow(unused_imports)]
use crate::base64::{base64_bytes, letters_decoded, sextet, PAD};
#[allow(unused_imports)]
use crate::clock::{session_id_text, token_text, Moment};
#[allow(unused_imports)]
use crate::numerals::{
    all_digits, decimal_value, digit, lemma_quotient_shrinks, numeral, parsed_u16,
};
#[allow(unused_imports)]
use crate::text::{
    after, before, lemma_position, pieces, position, trimmed, trimmed_end, trimmed_start,
    white_space, without_prefixes, without_suffixes,
};
use vstd::prelude::*;
use vstd::string::*;

verus! {

proof fn lemma_start(s: Seq<char>) -> (i: int)
    ensures
        0 <= i <= s.len(),
        trimmed_start(s) == s.skip(i),
        forall|k: int| 0 <= k < i ==> white_space(#[trigger] s[k]),
        i < s.len() ==> !white_space(s[i]),
    decreases s.len(),
{
    if s.len() > 0 && white_space(s[0]) {
        let j = lemma_start(s.drop_first());
        assert(s.drop_first().skip(j) =~= s.skip(j + 1));
        assert forall|k: int| 0 <= k < j + 1 implies white_space(#[trigger] s[k]) by {
            if k > 0 {
                assert(s.drop_first()[k - 1] == s[k]);
            }
        }
        j + 1
    } else {
        assert(s.skip(0) =~= s);
        0
    }
}

proof fn lemma_end(s: Seq<char>) -> (j: int)
    ensures
        0 <= j <= s.len(),
        trimmed_end(s) == s.take(j),
        forall|k: int| j <= k < s.len() ==> white_space(#[trigger] s[k]),
        j > 0 ==> !white_space(s[j - 1]),
    decreases s.len(),
{
    if s.len() > 0 && white_space(s.last()) {
        let j = lemma_end(s.drop_last());
        assert(s.drop_last().take(j) =~= s.take(j));
        assert forall|k: int| j <= k < s.len() implies white_space(#[trigger] s[k]) by {
            if k < s.len() - 1 {
                assert(s.drop_last()[k] == s[k]);
            }
        }
        j
    } else {
        assert(s.take(s.len() as int) =~= s);
        s.len() as int
    }
}

/// Trimming takes a text out of the middle of another: what is left begins and
/// ends with no white space, and what is taken off is nothing but white space.
pub proof fn trimming_takes_off_white_space(s: Seq<char>) -> (cut: (int, int))
    ensures
        0 <= cut.0 <= cut.1 <= s.len(),
        trimmed(s) == s.subrange(cut.0, cut.1),
        forall|k: int| 0 <= k < cut.0 ==> white_space(#[trigger] s[k]),
        forall|k: int| cut.1 <= k < s.len() ==> white_space(#[trigger] s[k]),
        trimmed(s).len() > 0 ==> !white_space(trimmed(s)[0]) && !white_space(trimmed(s).last()),
{
    let i = lemma_start(s);
    let j = lemma_end(s.skip(i));
    assert(s.skip(i).take(j) =~= s.subrange(i, i + j));
    assert forall|k: int| i + j <= k < s.len() implies white_space(#[trigger] s[k]) by {
        assert(s.skip(i)[k - i] == s[k]);
    }
    (i, i + j)
}

/// Trimming a text that was trimmed changes nothing.
pub proof fn trimming_twice_is_trimming_once(s: Seq<char>)
    ensures
        trimmed(trimmed(s)) == trimmed(s),
{
    let t = trimmed(s);
    let _ = trimming_takes_off_white_space(s);
    let cut = trimming_takes_off_white_space(t);
    if t.len() > 0 {
        assert(cut.0 == 0) by {
            if cut.0 > 0 {
                assert(white_space(t[0]));
            }
        }
        assert(cut.1 == t.len()) by {
            if cut.1 < t.len() {
                assert(white_space(t[t.len() - 1]));
            }
        }
    }
    assert(t.subrange(cut.0, cut.1) =~= t);
}

/// A place that is found holds what was sought, and no earlier place does.
pub proof fn search_finds_the_first<A>(s: Seq<A>, p: Seq<A>)
    ensures
        match position(s, p) {
            Some(i) => {
                &&& 0 <= i && i + p.len() <= s.len()
                &&& s.subrange(i, i + p.len()) == p
                &&& forall|j: int| 0 <= j < i ==> !p.is_prefix_of(#[trigger] s.skip(j))
            },
            None => forall|j: int| 0 <= j <= s.len() ==> !p.is_prefix_of(#[trigger] s.skip(j)),
        },
    decreases s.len(),
{
    lemma_position(s, p);
    assert(s.skip(0) =~= s);
    if !p.is_prefix_of(s) && s.len() > 0 {
        let t = s.drop_first();
        search_finds_the_first(t, p);
        assert forall|j: int| 1 <= j <= s.len() implies t.skip(j - 1) == #[trigger] s.skip(j) by {
            assert(t.skip(j - 1) =~= s.skip(j));
        }
    }
}

/// What stands before a separator, the separator and what stands after it make
/// up the text; without a separator all of it stands before.
pub proof fn cutting_loses_nothing(s: Seq<char>, sep: Seq<char>)
    ensures
        match after(s, sep) {
            Some(rest) => before(s, sep) + sep + rest == s,
            None => before(s, sep) == s,
        },
        after(s, sep) is None <==> position(s, sep) is None,
{
    lemma_position(s, sep);
    match position(s, sep) {
        Some(i) => {
            assert(s.take(i) + sep + s.skip(i + sep.len()) =~= s);
        },
        None => {},
    }
}

/// Pieces put together again, with the separator between them.
pub open spec fn joined(list: Seq<Seq<char>>, sep: char) -> Seq<char>
    decreases list.len(),
{
    if list.len() == 0 {
        seq![]
    } else if list.len() == 1 {
        list[0]
    } else {
        list[0] + seq![sep] + joined(list.drop_first(), sep)
    }
}

/// The pieces of a text hold no separator, and put together again they are the
/// text.
pub proof fn pieces_make_up_the_text(s: Seq<char>, sep: char)
    ensures
        pieces(s, sep).len() > 0,
        joined(pieces(s, sep), sep) == s,
        forall|i: int| 0 <= i < pieces(s, sep).len() ==> !(#[trigger] pieces(s, sep)[i]).contains(
            sep,
        ),
    decreases s.len(),
{
    let one = seq![sep];
    let p = pieces(s, sep);
    search_finds_the_first(s, one);
    match position(s, one) {
        Some(i) => {
            let head = s.take(i);
            let rest = s.skip(i + 1);
            pieces_make_up_the_text(rest, sep);
            let q = pieces(rest, sep);
            assert(p == seq![head] + q);
            assert(p.drop_first() =~= q);
            assert(s.subrange(i, i + 1)[0] == s[i]);
            assert(head + one + rest =~= s);
            assert(!head.contains(sep)) by {
                if head.contains(sep) {
                    let j = choose|j: int| 0 <= j < head.len() && head[j] == sep;
                    assert(s.skip(j).take(1) =~= one);
                    assert(one.is_prefix_of(s.skip(j)));
                }
            }
            assert forall|k: int| 0 <= k < p.len() implies !(#[trigger] p[k]).contains(sep) by {
                if k > 0 {
                    assert(p[k] == q[k - 1]);
                }
            }
        },
        None => {
            assert(p =~= seq![s]);
            assert(!s.contains(sep)) by {
                if s.contains(sep) {
                    let j = choose|j: int| 0 <= j < s.len() && s[j] == sep;
                    assert(s.skip(j).take(1) =~= one);
                    assert(one.is_prefix_of(s.skip(j)));
                }
            }
        },
    }
}

/// So many copies of a text.
pub open spec fn copies(p: Seq<char>, n: nat) -> Seq<char>
    decreases n,
{
    if n == 0 {
        seq![]
    } else {
        p + copies(p, (n - 1) as nat)
    }
}

/// What is left once all leading copies are off does not begin with one, and the
/// copies before it make up the text.
pub proof fn leading_copies_go(s: Seq<char>, p: Seq<char>) -> (n: nat)
    requires
        p.len() > 0,
    ensures
        !p.is_prefix_of(without_prefixes(s, p)),
        s == copies(p, n) + without_prefixes(s, p),
    decreases s.len(),
{
    if p.is_prefix_of(s) {
        let rest = s.skip(p.len() as int);
        let n = leading_copies_go(rest, p);
        assert(s =~= p + rest);
        assert(p + (copies(p, n) + without_prefixes(rest, p)) =~= (p + copies(p, n))
            + without_prefixes(rest, p));
        (n + 1) as nat
    } else {
        assert(s =~= copies(p, 0) + s);
        0
    }
}

/// What is left once a trailing character is off does not end with it, and all
/// that was taken off is that character.
pub proof fn trailing_characters_go(s: Seq<char>, c: char)
    ensures
        ({
            let t = without_suffixes(s, c);
            &&& t.len() <= s.len() && t == s.take(t.len() as int)
            &&& t.len() > 0 ==> t.last() != c
            &&& forall|k: int| t.len() <= k < s.len() ==> #[trigger] s[k] == c
        }),
    decreases s.len(),
{
    let t = without_suffixes(s, c);
    if s.len() > 0 && s.last() == c {
        let h = s.drop_last();
        trailing_characters_go(h, c);
        assert(h.take(t.len() as int) =~= s.take(t.len() as int));
        assert forall|k: int| t.len() <= k < s.len() implies #[trigger] s[k] == c by {
            if k < h.len() {
                assert(h[k] == s[k]);
            }
        }
    } else {
        assert(s.take(s.len() as int) =~= s);
    }
}

/// The value of a digit of a base up to sixteen.
pub open spec fn digit_value(c: char) -> int {
    if '0' <= c <= '9' {
        c as int - '0' as int
    } else if 'a' <= c <= 'f' {
        c as int - 'a' as int + 10
    } else {
        c as int - 'A' as int + 10
    }
}

/// What digits stand for, the last of them for the ones.
pub open spec fn place_value(s: Seq<char>, base: int) -> int
    decreases s.len(),
{
    if s.len() == 0 {
        0
    } else {
        base * place_value(s.drop_last(), base) + digit_value(s.last())
    }
}

/// A numeral stands for its number, is never empty, and has no leading zero but
/// that of zero itself.
pub proof fn numerals_stand_for_their_numbers(n: nat, base: nat, upper: bool)
    requires
        2 <= base <= 16,
    ensures
        place_value(numeral(n, base, upper), base as int) == n,
        numeral(n, base, upper).len() > 0,
        n > 0 ==> numeral(n, base, upper)[0] != '0',
        forall|i: int|
            0 <= i < numeral(n, base, upper).len() ==> {
                let c = #[trigger] numeral(n, base, upper)[i];
                '0' <= c <= '9' || (upper && 'A' <= c <= 'F') || (!upper && 'a' <= c <= 'f')
            },
    decreases n,
{
    let s = numeral(n, base, upper);
    reveal_with_fuel(place_value, 2);
    if n >= base {
        lemma_quotient_shrinks(n, base);
        let h = numeral(n / base, base, upper);
        numerals_stand_for_their_numbers(n / base, base, upper);
        assert(s.drop_last() =~= h);
        vstd::arithmetic::div_mod::lemma_fundamental_div_mod(n as int, base as int);
        assert(digit_value(digit(n % base, upper)) == n % base);
        assert(s[0] == h[0]);
        assert forall|i: int| 0 <= i < s.len() implies {
            let c = #[trigger] s[i];
            '0' <= c <= '9' || (upper && 'A' <= c <= 'F') || (!upper && 'a' <= c <= 'f')
        } by {
            if i < h.len() {
                assert(s[i] == h[i]);
            }
        }
    } else {
        assert(s.drop_last() =~= Seq::<char>::empty());
        assert(base * place_value(Seq::<char>::empty(), base as int) == 0) by (nonlinear_arith)
            requires
                place_value(Seq::<char>::empty(), base as int) == 0,
        ;
        assert(digit_value(digit(n, upper)) == n);
    }
}

/// A reading in milliseconds is the reading in nanoseconds, rounded down, and both
/// hold the whole seconds.
pub proof fn readings_agree(m: Moment)
    requires
        m.wf(),
    ensures
        m.millis_since_epoch() == m.nanos_since_epoch() / 1_000_000,
        m.nanos_since_epoch() / 1_000_000_000 == m.secs,
        m.nanos_since_epoch() % 1_000_000_000 == m.nanos,
{
}

/// A token stands for the nanosecond that it was made at, mixed with one and the
/// same number.
pub proof fn tokens_stand_for_their_nanoseconds(nanos: u128)
    ensures
        place_value(token_text(nanos), 16) == nanos ^ 0xDEADBEEFCAFEBABEu128,
{
    numerals_stand_for_their_numbers((nanos ^ 0xDEADBEEFCAFEBABEu128) as nat, 16, false);
}

/// A session id is the millisecond that it was made at, behind `DL-`.
pub proof fn session_ids_stand_for_their_milliseconds(millis: nat)
    ensures
        session_id_text(millis).take(3) == "DL-"@,
        place_value(session_id_text(millis).skip(3), 16) == millis,
{
    reveal_strlit("DL-");
    numerals_stand_for_their_numbers(millis, 16, true);
    assert(session_id_text(millis).take(3) =~= "DL-"@);
    assert(session_id_text(millis).skip(3) =~= numeral(millis, 16, true));
}

/// A number is read exactly from one or more decimal digits, with or without a
/// plus sign before them, that stand for at most the largest such number.
pub proof fn ports_are_read_from_digits(d: Seq<char>)
    requires
        d.len() > 0,
        all_digits(d),
    ensures
        parsed_u16(d) == if place_value(d, 10) <= 65535 {
            Some(place_value(d, 10) as u16)
        } else {
            None
        },
        parsed_u16(seq!['+'] + d) == parsed_u16(d),
{
    lemma_decimal_is_place_value(d);
    assert(d[0] != '+');
    assert((seq!['+'] + d).drop_first() =~= d);
}

proof fn lemma_decimal_is_place_value(d: Seq<char>)
    requires
        all_digits(d),
    ensures
        decimal_value(d) == place_value(d, 10),
    decreases d.len(),
{
    if d.len() > 0 {
        assert('0' <= d[d.len() - 1] <= '9');
        lemma_decimal_is_place_value(d.drop_last());
    }
}

/// A text with anything but a decimal digit behind its first character, or
/// without a digit, is no number.
pub proof fn other_texts_are_no_ports(s: Seq<char>, i: int)
    requires
        s.len() == 0 || s == seq!['+'] || (0 <= i < s.len() && !('0' <= s[i] <= '9') && (i > 0
            || s[0] != '+')),
    ensures
        parsed_u16(s) is None,
{
    if s.len() > 0 && s[0] == '+' {
        let d = s.drop_first();
        if i > 0 && i < s.len() {
            assert(d[i - 1] == s[i]);
        }
    }
}

/// Whether a byte is a letter of the Base64 alphabet.
pub open spec fn in_alphabet(c: u8) -> bool {
    65 <= c <= 90 || 97 <= c <= 122 || 48 <= c <= 57 || c == 43 || c == 47
}

/// A byte outside the alphabet, padding aside, counts as the letter for zero; and
/// letters are told apart.
pub proof fn foreign_bytes_count_as_zero(c: u8, d: u8)
    ensures
        !in_alphabet(c) ==> sextet(c) == sextet(65),
        sextet(c) < 64,
        in_alphabet(c) && in_alphabet(d) && sextet(c) == sextet(d) ==> c == d,
{
}

/// Padding counts for nothing, wherever it stands.
pub proof fn padding_counts_for_nothing(a: Seq<u8>, b: Seq<u8>)
    ensures
        base64_bytes(a + seq![61u8] + b) == base64_bytes(a + b),
{
    let stays = |c: u8| c != PAD;
    Seq::filter_distributes_over_add(a, b, stays);
    Seq::filter_distributes_over_add(a + seq![61u8], b, stays);
    a.lemma_filter_push(61u8, stays);
    assert(a + seq![61u8] =~= a.push(61u8));
}

/// How many bytes come out of so many letters: three for each four, and of a
/// shorter group two for three, one for two and one for one.
pub proof fn letters_give_so_many_bytes(v: Seq<u8>)
    ensures
        letters_decoded(v).len() == 3 * (v.len() / 4) + if v.len() % 4 == 3 {
            2int
        } else if v.len() % 4 == 0 {
            0
        } else {
            1
        },
    decreases v.len(),
{
    if v.len() >= 4 {
        letters_give_so_many_bytes(v.skip(4));
    }
}

/// The bytes that come out depend on nothing but what the letters count for.
pub proof fn bytes_depend_on_what_letters_count_for(v: Seq<u8>, w: Seq<u8>)
    requires
        v.len() == w.len(),
        forall|i: int| 0 <= i < v.len() ==> sextet(#[trigger] v[i]) == sextet(w[i]),
    ensures
        letters_decoded(v) == letters_decoded(w),
    decreases v.len(),
{
    if v.len() > 0 {
        assert(sextet(v[0]) == sextet(w[0]));
        if v.len() > 1 {
            assert(sextet(v[1]) == sextet(w[1]));
        }
        if v.len() > 2 {
            assert(sextet(v[2]) == sextet(w[2]));
        }
        if v.len() > 3 {
            assert(sextet(v[3]) == sextet(w[3]));
            assert forall|i: int| 0 <= i < v.skip(4).len() implies sextet(#[trigger] v.skip(4)[i])
                == sextet(w.skip(4)[i]) by {
                assert(sextet(v[i + 4]) == sextet(w[i + 4]));
            }
            bytes_depend_on_what_letters_count_for(v.skip(4), w.skip(4));
        }
    }
}

} // verus!
