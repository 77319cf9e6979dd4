//! Numbers written out in digits, and read back.

use crate::text::chars_of;
use vstd::prelude::*;

verus! {

/// The digit with the value `d`, for bases up to sixteen.
pub open spec fn digit(d: nat, upper: bool) -> char {
    if d < 10 {
        ('0' as nat + d) as char
    } else if upper {
        ('A' as nat + d - 10) as char
    } else {
        ('a' as nat + d - 10) as char
    }
}

/// `n` written in the given base, without leading zeros.
pub open spec fn numeral(n: nat, base: nat, upper: bool) -> Seq<char>
    decreases n,
    when base >= 2
{
    if n < base {
        seq![digit(n, upper)]
    } else {
        proof {
            lemma_quotient_shrinks(n, base);
        }
        numeral(n / base, base, upper).push(digit(n % base, upper))
    }
}

/// `n` in decimal.
pub open spec fn decimal(n: nat) -> Seq<char> {
    numeral(n, 10, false)
}

/// `n` in hexadecimal, with small letters.
pub open spec fn hex_lower(n: nat) -> Seq<char> {
    numeral(n, 16, false)
}

/// `n` in hexadecimal, with capital letters.
pub open spec fn hex_upper(n: nat) -> Seq<char> {
    numeral(n, 16, true)
}

/// Dividing by the base makes a number smaller.
pub proof fn lemma_quotient_shrinks(n: nat, base: nat)
    requires
        base >= 2,
        n >= base,
    ensures
        0 < n / base < n,
        n % base < base,
{
    assert(0 < n / base < n && n % base < base) by (nonlinear_arith)
        requires
            base >= 2,
            n >= base,
    ;
}

/// Numerals in one base differ where the numbers do.
pub proof fn numeral_is_injective(a: nat, b: nat, base: nat, upper: bool)
    requires
        2 <= base <= 16,
        numeral(a, base, upper) == numeral(b, base, upper),
    ensures
        a == b,
    decreases a,
{
    let x = numeral(a, base, upper);
    let y = numeral(b, base, upper);
    if a >= base {
        lemma_quotient_shrinks(a, base);
        lemma_numeral_nonempty(a / base, base, upper);
        assert(x == numeral(a / base, base, upper).push(digit(a % base, upper)));
        assert(x.len() >= 2);
    } else {
        assert(x == seq![digit(a, upper)]);
        assert(x.len() == 1);
    }
    if b >= base {
        lemma_quotient_shrinks(b, base);
        lemma_numeral_nonempty(b / base, base, upper);
        assert(y == numeral(b / base, base, upper).push(digit(b % base, upper)));
        assert(y.len() >= 2);
    } else {
        assert(y == seq![digit(b, upper)]);
        assert(y.len() == 1);
    }
    if a < base {
        assert(x[0] == digit(a, upper));
        assert(y[0] == digit(b, upper));
        lemma_digit_is_injective(a, b, upper);
    } else {
        assert(x.last() == digit(a % base, upper));
        assert(y.last() == digit(b % base, upper));
        lemma_digit_is_injective(a % base, b % base, upper);
        assert(x.drop_last() =~= numeral(a / base, base, upper));
        assert(y.drop_last() =~= numeral(b / base, base, upper));
        numeral_is_injective(a / base, b / base, base, upper);
        vstd::arithmetic::div_mod::lemma_fundamental_div_mod(a as int, base as int);
        vstd::arithmetic::div_mod::lemma_fundamental_div_mod(b as int, base as int);
    }
}

proof fn lemma_digit_is_injective(d: nat, e: nat, upper: bool)
    requires
        d < 16,
        e < 16,
        digit(d, upper) == digit(e, upper),
    ensures
        d == e,
{
}

proof fn lemma_numeral_nonempty(n: nat, base: nat, upper: bool)
    requires
        base >= 2,
    ensures
        numeral(n, base, upper).len() >= 1,
{
}

fn digit_of(d: u8, upper: bool) -> (r: char)
    requires
        d < 16,
    ensures
        r == digit(d as nat, upper),
{
    if d < 10 {
        (48u8 + d) as char
    } else if upper {
        (65u8 + (d - 10)) as char
    } else {
        (97u8 + (d - 10)) as char
    }
}

/// The number written in the given base.
fn numeral_of(n: u128, base: u128, upper: bool) -> (r: String)
    requires
        2 <= base <= 16,
    ensures
        r@ == numeral(n as nat, base as nat, upper),
{
    let mut low: Vec<char> = Vec::new();
    let mut rest: u128 = n;
    assert(numeral(n as nat, base as nat, upper) =~= numeral(rest as nat, base as nat, upper)
        + low@.reverse());
    while rest >= base
        invariant
            2 <= base <= 16,
            numeral(n as nat, base as nat, upper) == numeral(rest as nat, base as nat, upper)
                + low@.reverse(),
        decreases rest,
    {
        proof {
            lemma_quotient_shrinks(rest as nat, base as nat);
        }
        let ghost before = low@;
        let ghost full = rest as nat;
        let d: u8 = (rest % base) as u8;
        low.push(digit_of(d, upper));
        rest = rest / base;
        proof {
            assert(numeral(full, base as nat, upper) == numeral(rest as nat, base as nat, upper).push(
                low@.last(),
            ));
            assert(numeral(full, base as nat, upper) + before.reverse() =~= numeral(
                rest as nat,
                base as nat,
                upper,
            ) + low@.reverse());
        }
    }
    let mut r = String::new();
    r.push(digit_of(rest as u8, upper));
    let mut k: usize = low.len();
    assert(r@ =~= numeral(rest as nat, base as nat, upper));
    assert(r@ + low@.reverse().skip(0) =~= numeral(n as nat, base as nat, upper));
    while k > 0
        invariant
            k <= low@.len(),
            r@ + low@.reverse().skip(low@.len() - k) == numeral(n as nat, base as nat, upper),
        decreases k,
    {
        let ghost before = r@;
        r.push(low[k - 1]);
        k -= 1;
        assert(r@ + low@.reverse().skip(low@.len() - k) =~= before + low@.reverse().skip(
            low@.len() - k - 1,
        ));
    }
    assert(low@.reverse().skip(low@.len() as int) =~= Seq::<char>::empty());
    assert(r@ + Seq::<char>::empty() =~= r@);
    r
}

/// The number in decimal.
pub fn to_decimal(n: u64) -> (r: String)
    ensures
        r@ == decimal(n as nat),
{
    numeral_of(n as u128, 10, false)
}

/// The number in hexadecimal, with small letters.
pub fn to_hex_lower(n: u128) -> (r: String)
    ensures
        r@ == hex_lower(n as nat),
{
    numeral_of(n, 16, false)
}

/// The number in hexadecimal, with capital letters.
pub fn to_hex_upper(n: u128) -> (r: String)
    ensures
        r@ == hex_upper(n as nat),
{
    numeral_of(n, 16, true)
}

/// Whether every character is a decimal digit.
pub open spec fn all_digits(s: Seq<char>) -> bool {
    forall|i: int| 0 <= i < s.len() ==> '0' <= #[trigger] s[i] <= '9'
}

/// The number that a sequence of decimal digits writes.
pub open spec fn decimal_value(s: Seq<char>) -> int
    decreases s.len(),
{
    if s.len() == 0 {
        0
    } else {
        10 * decimal_value(s.drop_last()) + (s.last() as int - '0' as int)
    }
}

/// What `s` reads as a 16-bit number: an optional plus sign, then one or more
/// decimal digits with a value that fits, and nothing else.
pub open spec fn parsed_u16(s: Seq<char>) -> Option<u16> {
    let d = if s.len() > 0 && s[0] == '+' {
        s.drop_first()
    } else {
        s
    };
    if d.len() > 0 && all_digits(d) && decimal_value(d) <= u16::MAX {
        Some(decimal_value(d) as u16)
    } else {
        None
    }
}

proof fn lemma_decimal_value_nonnegative(s: Seq<char>)
    requires
        all_digits(s),
    ensures
        decimal_value(s) >= 0,
    decreases s.len(),
{
    if s.len() > 0 {
        lemma_decimal_value_nonnegative(s.drop_last());
    }
}

/// Reads a 16-bit number.
pub fn parse_u16(s: &str) -> (r: Option<u16>)
    ensures
        r == parsed_u16(s@),
{
    let v = chars_of(s);
    let n: usize = v.len();
    let start: usize = if n > 0 && v[0] == '+' {
        1
    } else {
        0
    };
    let ghost d = v@.skip(start as int);
    assert(start == 1 ==> d =~= s@.drop_first());
    assert(start == 0 ==> d =~= s@);
    if start == n {
        return None;
    }
    let mut acc: u32 = 0;
    let mut i: usize = start;
    assert(d.take(0) =~= Seq::<char>::empty());
    while i < n
        invariant
            start <= i <= n == v@.len(),
            d == v@.skip(start as int),
            d == if s@.len() > 0 && s@[0] == '+' {
                s@.drop_first()
            } else {
                s@
            },
            all_digits(d.take(i - start)),
            acc <= 65536,
            acc < 65536 ==> acc == decimal_value(d.take(i - start)),
            acc == 65536 ==> decimal_value(d.take(i - start)) >= 65536,
        decreases n - i,
    {
        let c = v[i];
        assert(d[i - start] == c);
        if c < '0' || c > '9' {
            assert(!all_digits(d));
            return None;
        }
        let ghost shorter = d.take(i - start);
        let ghost longer = d.take(i + 1 - start);
        assert(longer.drop_last() =~= shorter);
        assert(longer.last() == c);
        assert(all_digits(longer)) by {
            assert forall|k: int| 0 <= k < longer.len() implies '0' <= #[trigger] longer[k]
                <= '9' by {
                if k < shorter.len() {
                    assert(longer[k] == shorter[k]);
                }
            }
        }
        let next: u32 = acc * 10 + (c as u32 - '0' as u32);
        acc = if next < 65536 {
            next
        } else {
            65536
        };
        i += 1;
    }
    assert(d.take(n - start) =~= d);
    if acc < 65536 {
        proof {
            lemma_decimal_value_nonnegative(d);
        }
        Some(acc as u16)
    } else {
        None
    }
}

/// Every 16-bit number reads back from its decimal numeral.
pub proof fn decimal_reads_back(n: u16)
    ensures
        parsed_u16(decimal(n as nat)) == Some(n),
{
    lemma_decimal_value_of_numeral(n as nat);
}

proof fn lemma_decimal_value_of_numeral(n: nat)
    ensures
        all_digits(decimal(n)),
        decimal(n).len() > 0,
        decimal_value(decimal(n)) == n,
    decreases n,
{
    reveal_with_fuel(decimal_value, 2);
    if n >= 10 {
        lemma_decimal_value_of_numeral(n / 10);
        assert(decimal(n).drop_last() =~= decimal(n / 10));
        assert forall|i: int| 0 <= i < decimal(n).len() implies '0' <= #[trigger] decimal(n)[i]
            <= '9' by {
            if i < decimal(n / 10).len() {
                assert(decimal(n)[i] == decimal(n / 10)[i]);
            }
        }
    } else {
        assert(decimal(n).drop_last() =~= Seq::<char>::empty());
    }
}

} // verus!
