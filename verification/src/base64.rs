//! Base64 text, read leniently: padding is passed over wherever it stands, and
//! a byte outside the alphabet counts as zero.

use vstd::prelude::*;
use vstd::string::*;
use vstd::utf8::*;

verus! {

/// `std::string::FromUtf8Error`, the error of `String::from_utf8`. Nothing inside
/// it is looked at.
#[verifier::external_type_specification]
#[verifier::external_body]
pub struct ExFromUtf8Error(std::string::FromUtf8Error);

/// `String::from_utf8` gives the text that the bytes encode where they are
/// valid UTF-8, and an error where they are not.
pub assume_specification[ String::from_utf8 ](bytes: Vec<u8>) -> (r: Result<
    String,
    std::string::FromUtf8Error,
>)
    ensures
        match r {
            Ok(t) => valid_utf8(bytes@) && t@ == decode_utf8(bytes@),
            Err(_) => !valid_utf8(bytes@),
        },
;

/// The padding character, `=`.
pub const PAD: u8 = 61;

/// The six bits that a letter of the alphabet stands for.
pub open spec fn sextet(c: u8) -> u8 {
    if 65 <= c <= 90 {
        (c - 65) as u8
    } else if 97 <= c <= 122 {
        (c - 71) as u8
    } else if 48 <= c <= 57 {
        (c + 4) as u8
    } else if c == 43 {
        62
    } else if c == 47 {
        63
    } else {
        0
    }
}

/// `b` without its padding.
pub open spec fn unpadded(b: Seq<u8>) -> Seq<u8> {
    b.filter(|c: u8| c != PAD)
}

/// The bytes that letters without padding encode. Four letters give three
/// bytes; of a shorter group at the end, three letters give two bytes, and two
/// or one give one.
pub open spec fn letters_decoded(v: Seq<u8>) -> Seq<u8>
    decreases v.len(),
{
    if v.len() == 0 {
        seq![]
    } else {
        let a = sextet(v[0]) as int;
        let b = if v.len() > 1 { sextet(v[1]) as int } else { 0 };
        let c = if v.len() > 2 { sextet(v[2]) as int } else { 0 };
        let d = if v.len() > 3 { sextet(v[3]) as int } else { 0 };
        let first = (4 * a + b / 16) as u8;
        let second = (16 * (b % 16) + c / 4) as u8;
        let third = (64 * (c % 4) + d) as u8;
        if v.len() <= 2 {
            seq![first]
        } else if v.len() == 3 {
            seq![first, second]
        } else {
            seq![first, second, third] + letters_decoded(v.skip(4))
        }
    }
}

/// The bytes that a Base64 text encodes.
pub open spec fn base64_bytes(text: Seq<u8>) -> Seq<u8> {
    letters_decoded(unpadded(text))
}

/// The place of a byte in the alphabet, or zero.
fn sextet_of(c: u8) -> (r: u8)
    ensures
        r == sextet(c),
        r < 64,
{
    if 65 <= c && c <= 90 {
        c - 65
    } else if 97 <= c && c <= 122 {
        c - 71
    } else if 48 <= c && c <= 57 {
        c + 4
    } else if c == 43 {
        62
    } else if c == 47 {
        63
    } else {
        0
    }
}

/// The bytes without padding.
fn strip_padding(b: &[u8]) -> (r: Vec<u8>)
    ensures
        r@ == unpadded(b@),
{
    let mut r: Vec<u8> = Vec::new();
    let mut i: usize = 0;
    assert(b@.take(0).filter(|c: u8| c != PAD) =~= Seq::<u8>::empty()) by {
        b@.take(0).lemma_filter_len(|c: u8| c != PAD);
    }
    while i < b.len()
        invariant
            i <= b@.len(),
            r@ == unpadded(b@.take(i as int)),
        decreases b@.len() - i,
    {
        assert(b@.take(i + 1) =~= b@.take(i as int).push(b@[i as int]));
        proof {
            b@.take(i as int).lemma_filter_push(b@[i as int], |c: u8| c != PAD);
        }
        if b[i] != PAD {
            r.push(b[i]);
        }
        i += 1;
    }
    assert(b@.take(i as int) =~= b@);
    r
}

proof fn lemma_joins(a: u8, b: u8, c: u8, d: u8)
    requires
        a < 64,
        b < 64,
        c < 64,
        d < 64,
    ensures
        (a << 2u8) | (b >> 4u8) == (4 * a + b / 16) as u8,
        (b << 4u8) | (c >> 2u8) == (16 * (b % 16) + c / 4) as u8,
        (c << 6u8) | d == (64 * (c % 4) + d) as u8,
{
    assert((a << 2u8) | (b >> 4u8) == (4 * a + b / 16) as u8) by (bit_vector)
        requires
            a < 64,
            b < 64,
    ;
    assert((b << 4u8) | (c >> 2u8) == (16 * (b % 16) + c / 4) as u8) by (bit_vector)
        requires
            b < 64,
            c < 64,
    ;
    assert((c << 6u8) | d == (64 * (c % 4) + d) as u8) by (bit_vector)
        requires
            c < 64,
            d < 64,
    ;
}

/// The bytes that letters without padding encode.
fn decode_letters(v: &Vec<u8>) -> (r: Vec<u8>)
    ensures
        r@ == letters_decoded(v@),
{
    let n: usize = v.len();
    let mut r: Vec<u8> = Vec::new();
    let mut i: usize = 0;
    assert(v@.skip(0) =~= v@);
    assert(r@ + letters_decoded(v@.skip(0)) =~= letters_decoded(v@));
    while i < n
        invariant
            i <= n == v@.len(),
            r@ + letters_decoded(v@.skip(i as int)) == letters_decoded(v@),
        decreases n - i,
    {
        let ghost rest = v@.skip(i as int);
        let ghost so_far = r@;
        let left: usize = n - i;
        let a: u8 = sextet_of(v[i]);
        let b: u8 = if left > 1 { sextet_of(v[i + 1]) } else { 0 };
        let c: u8 = if left > 2 { sextet_of(v[i + 2]) } else { 0 };
        let d: u8 = if left > 3 { sextet_of(v[i + 3]) } else { 0 };
        proof {
            lemma_joins(a, b, c, d);
        }
        r.push((a << 2u8) | (b >> 4u8));
        if left > 2 {
            r.push((b << 4u8) | (c >> 2u8));
        }
        if left > 3 {
            r.push((c << 6u8) | d);
        }
        if left <= 4 {
            assert(left == 4 ==> letters_decoded(rest.skip(4)) =~= Seq::<u8>::empty());
            assert(r@ =~= so_far + letters_decoded(rest));
            i = n;
            assert(v@.skip(n as int) =~= Seq::<u8>::empty());
            assert(r@ + letters_decoded(v@.skip(n as int)) =~= r@);
        } else {
            assert(rest.skip(4) =~= v@.skip(i + 4));
            assert(r@ + letters_decoded(v@.skip(i + 4)) =~= so_far + letters_decoded(rest));
            i += 4;
        }
    }
    assert(v@.skip(n as int) =~= Seq::<u8>::empty());
    assert(r@ + letters_decoded(v@.skip(n as int)) =~= r@);
    r
}

/// Decodes Base64 text that encodes text. It fails exactly where the bytes
/// that come out are not UTF-8.
pub fn base64_decode(s: &str) -> (r: Result<String, ()>)
    ensures
        match r {
            Ok(t) => valid_utf8(base64_bytes(s.spec_bytes())) && t@ == decode_utf8(
                base64_bytes(s.spec_bytes()),
            ),
            Err(_) => !valid_utf8(base64_bytes(s.spec_bytes())),
        },
{
    let letters = strip_padding(s.as_bytes());
    let bytes = decode_letters(&letters);
    match String::from_utf8(bytes) {
        Ok(t) => Ok(t),
        Err(_) => Err(()),
    }
}

/// The letter of the alphabet that stands for six bits.
pub open spec fn letter(x: int) -> u8 {
    if x < 26 {
        (x + 65) as u8
    } else if x < 52 {
        (x + 71) as u8
    } else if x < 62 {
        (x - 4) as u8
    } else if x == 62 {
        43
    } else {
        47
    }
}

/// The standard Base64 encoding of `b`, with padding.
pub open spec fn base64_encoded(b: Seq<u8>) -> Seq<u8>
    decreases b.len(),
{
    if b.len() == 0 {
        seq![]
    } else if b.len() == 1 {
        seq![letter(b[0] as int / 4), letter(16 * (b[0] as int % 4)), PAD, PAD]
    } else if b.len() == 2 {
        seq![
            letter(b[0] as int / 4),
            letter(16 * (b[0] as int % 4) + b[1] as int / 16),
            letter(4 * (b[1] as int % 16)),
            PAD,
        ]
    } else {
        seq![
            letter(b[0] as int / 4),
            letter(16 * (b[0] as int % 4) + b[1] as int / 16),
            letter(4 * (b[1] as int % 16) + b[2] as int / 64),
            letter(b[2] as int % 64),
        ] + base64_encoded(b.skip(3))
    }
}

proof fn lemma_letter(x: int)
    requires
        0 <= x < 64,
    ensures
        sextet(letter(x)) == x,
        letter(x) != PAD,
{
}

proof fn lemma_unpadded_push(s: Seq<u8>, c: u8)
    ensures
        unpadded(s.push(c)) == if c != PAD {
            unpadded(s).push(c)
        } else {
            unpadded(s)
        },
{
    s.lemma_filter_push(c, |c: u8| c != PAD);
}

proof fn lemma_unpadded_four(a: u8, b: u8, c: u8, d: u8)
    requires
        a != PAD,
        b != PAD,
        c == PAD ==> d == PAD,
    ensures
        unpadded(seq![a, b, c, d]) == if c == PAD {
            seq![a, b]
        } else if d == PAD {
            seq![a, b, c]
        } else {
            seq![a, b, c, d]
        },
{
    let e = Seq::<u8>::empty();
    e.lemma_filter_len(|c: u8| c != PAD);
    assert(unpadded(e) =~= e);
    lemma_unpadded_push(e, a);
    lemma_unpadded_push(e.push(a), b);
    lemma_unpadded_push(e.push(a).push(b), c);
    lemma_unpadded_push(e.push(a).push(b).push(c), d);
    assert(e.push(a).push(b).push(c).push(d) =~= seq![a, b, c, d]);
    assert(e.push(a).push(b) =~= seq![a, b]);
    assert(e.push(a).push(b).push(c) =~= seq![a, b, c]);
}

proof fn lemma_split_joins(x: int, y: int, z: int)
    requires
        0 <= x < 256,
        0 <= y < 256,
        0 <= z < 256,
    ensures
        ({
            let a = x / 4;
            let b = 16 * (x % 4) + y / 16;
            let c = 4 * (y % 16) + z / 64;
            let d = z % 64;
            &&& 0 <= a < 64 && 0 <= b < 64 && 0 <= c < 64 && 0 <= d < 64
            &&& 4 * a + b / 16 == x
            &&& 16 * (b % 16) + c / 4 == y
            &&& 64 * (c % 4) + d == z
        }),
{
}

proof fn lemma_decode_group(a: int, b: int, c: int, d: int, rest: Seq<u8>)
    requires
        0 <= a < 64,
        0 <= b < 64,
        0 <= c < 64,
        0 <= d < 64,
    ensures
        letters_decoded(seq![letter(a), letter(b), letter(c), letter(d)] + rest) == seq![
            (4 * a + b / 16) as u8,
            (16 * (b % 16) + c / 4) as u8,
            (64 * (c % 4) + d) as u8,
        ] + letters_decoded(rest),
{
    lemma_letter(a);
    lemma_letter(b);
    lemma_letter(c);
    lemma_letter(d);
    let v = seq![letter(a), letter(b), letter(c), letter(d)] + rest;
    assert(v.skip(4) =~= rest);
}

/// Decoding gives back what the standard encoding encoded.
pub proof fn base64_round_trip(b: Seq<u8>)
    ensures
        base64_bytes(base64_encoded(b)) == b,
    decreases b.len(),
{
    let e = base64_encoded(b);
    if b.len() == 0 {
        e.lemma_filter_len(|c: u8| c != PAD);
        assert(unpadded(e) =~= Seq::<u8>::empty());
        assert(base64_bytes(e) =~= b);
    } else {
        let x = b[0] as int;
        let y = if b.len() > 1 { b[1] as int } else { 0 };
        let z = if b.len() > 2 { b[2] as int } else { 0 };
        lemma_split_joins(x, y, z);
        lemma_letter(x / 4);
        lemma_letter(16 * (x % 4) + y / 16);
        lemma_letter(4 * (y % 16) + z / 64);
        lemma_letter(z % 64);
        if b.len() <= 2 {
            lemma_unpadded_four(e[0], e[1], e[2], e[3]);
            assert(e =~= seq![e[0], e[1], e[2], e[3]]);
            assert(base64_bytes(e) =~= b);
        } else {
            let group = seq![
                letter(x / 4),
                letter(16 * (x % 4) + y / 16),
                letter(4 * (y % 16) + z / 64),
                letter(z % 64),
            ];
            let rest = base64_encoded(b.skip(3));
            assert(e == group + rest);
            lemma_unpadded_four(group[0], group[1], group[2], group[3]);
            assert(group =~= seq![group[0], group[1], group[2], group[3]]);
            Seq::filter_distributes_over_add(group, rest, |c: u8| c != PAD);
            assert(unpadded(e) == group + unpadded(rest));
            lemma_decode_group(
                x / 4,
                16 * (x % 4) + y / 16,
                4 * (y % 16) + z / 64,
                z % 64,
                unpadded(rest),
            );
            base64_round_trip(b.skip(3));
            assert(seq![b[0], b[1], b[2]] + b.skip(3) =~= b);
        }
    }
}

/// Padding at the end does not change what a text decodes to.
pub proof fn padding_is_passed_over(text: Seq<u8>, pads: Seq<u8>)
    requires
        forall|i: int| 0 <= i < pads.len() ==> pads[i] == PAD,
    ensures
        base64_bytes(text + pads) == base64_bytes(text),
    decreases pads.len(),
{
    if pads.len() == 0 {
        assert(text + pads =~= text);
    } else {
        let fewer = pads.drop_last();
        padding_is_passed_over(text, fewer);
        assert(text + pads =~= (text + fewer).push(PAD));
        lemma_unpadded_push(text + fewer, PAD);
    }
}

} // verus!
