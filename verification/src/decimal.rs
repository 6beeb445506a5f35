//! Decimal rendering of signed 64-bit integers, as the `Display`
//! implementation for integers prints them: an optional leading minus sign
//! followed by the digits of the magnitude, no leading zeros.

use vstd::prelude::*;
use crate::hex::hex_digit;

verus! {

/// The decimal digit characters of a non-negative value, most significant
/// first. A single `'0'` for zero.
pub open spec fn dec_digits(n: nat) -> Seq<char>
    decreases n,
{
    if n < 10 {
        seq![hex_digit(n as int)]
    } else {
        dec_digits(n / 10) + seq![hex_digit(n as int % 10)]
    }
}

/// The decimal rendering of a signed value: a minus sign before the
/// magnitude's digits when the value is negative.
pub open spec fn dec_of(t: int) -> Seq<char> {
    if t < 0 {
        seq!['-'] + dec_digits((-t) as nat)
    } else {
        dec_digits(t as nat)
    }
}

/// True of the ten decimal digit characters.
pub open spec fn is_dec_char(c: char) -> bool {
    '0' <= c && c <= '9'
}

/// Digit sequences are never empty and hold decimal digit characters only.
pub proof fn lemma_dec_digits_shape(n: nat)
    ensures
        dec_digits(n).len() >= 1,
        forall|i: int|
            0 <= i < dec_digits(n).len() ==> is_dec_char(#[trigger] dec_digits(n)[i]),
    decreases n,
{
    if n >= 10 {
        lemma_dec_digits_shape(n / 10);
    }
}

/// Two distinct non-negative values never share a digit sequence.
pub proof fn lemma_dec_digits_injective(a: nat, b: nat)
    requires
        dec_digits(a) == dec_digits(b),
    ensures
        a == b,
    decreases a,
{
    lemma_dec_digits_shape(a);
    lemma_dec_digits_shape(b);
    if a < 10 && b < 10 {
        assert(dec_digits(a)[0] == hex_digit(a as int));
        assert(dec_digits(b)[0] == hex_digit(b as int));
    } else if a >= 10 && b >= 10 {
        let sa = dec_digits(a);
        let sb = dec_digits(b);
        assert(sa.last() == hex_digit(a as int % 10));
        assert(sb.last() == hex_digit(b as int % 10));
        assert(a % 10 == b % 10);
        assert(sa.drop_last() =~= dec_digits(a / 10));
        assert(sb.drop_last() =~= dec_digits(b / 10));
        lemma_dec_digits_injective(a / 10, b / 10);
    } else if a >= 10 {
        assert(dec_digits(b).len() == 1);
        assert(dec_digits(a).len() == dec_digits(a / 10).len() + 1);
    } else {
        assert(dec_digits(a).len() == 1);
        assert(dec_digits(b).len() == dec_digits(b / 10).len() + 1);
    }
}

/// Two distinct signed values never share a decimal rendering.
pub proof fn lemma_dec_of_injective(t1: int, t2: int)
    requires
        dec_of(t1) == dec_of(t2),
    ensures
        t1 == t2,
{
    lemma_dec_digits_shape(if t1 < 0 { (-t1) as nat } else { t1 as nat });
    lemma_dec_digits_shape(if t2 < 0 { (-t2) as nat } else { t2 as nat });
    if t1 < 0 && t2 < 0 {
        assert(dec_of(t1).skip(1) =~= dec_digits((-t1) as nat));
        assert(dec_of(t2).skip(1) =~= dec_digits((-t2) as nat));
        lemma_dec_digits_injective((-t1) as nat, (-t2) as nat);
    } else if t1 >= 0 && t2 >= 0 {
        lemma_dec_digits_injective(t1 as nat, t2 as nat);
    } else if t1 < 0 {
        assert(dec_of(t1)[0] == '-');
        assert(is_dec_char(dec_of(t2)[0]));
    } else {
        assert(dec_of(t2)[0] == '-');
        assert(is_dec_char(dec_of(t1)[0]));
    }
}

/// Appends the digits of `m` to `out`, most significant first.
fn push_dec_digits(out: &mut Vec<char>, m: u64)
    ensures
        final(out)@ == old(out)@ + dec_digits(m as nat),
    decreases m,
{
    if m >= 10 {
        assert(m / 10 < m) by (nonlinear_arith)
            requires m >= 10;
        push_dec_digits(out, m / 10);
    }
    out.push(crate::hex::hex_digit_char((m % 10) as u8));
    if m >= 10 {
        assert(old(out)@ + dec_digits((m / 10) as nat) + seq![hex_digit(m as int % 10)]
            =~= old(out)@ + dec_digits(m as nat));
    } else {
        assert(old(out)@ + dec_digits(m as nat) =~= old(out)@.push(hex_digit(m as int)));
    }
}

/// Renders a signed 64-bit value in decimal.
pub fn i64_to_decimal(t: i64) -> (r: Vec<char>)
    ensures
        r@ == dec_of(t as int),
{
    let mut out: Vec<char> = Vec::new();
    if t >= 0 {
        push_dec_digits(&mut out, t as u64);
    } else {
        out.push('-');
        let m: u64 = ((-(t + 1)) as u64) + 1;
        assert(m as int == -(t as int));
        push_dec_digits(&mut out, m);
        assert(seq!['-'] + dec_digits(m as nat) =~= out@);
    }
    out
}

} // verus!
