//! Exact decimal arithmetic for the inch/millimetre conversion.
//!
//! The entered text is read as a decimal number (`digits / 10^scale`), the
//! converted value is computed in ten-thousandths, rounded to the nearest
//! (halves up), and written with four decimal places, right-aligned in seven
//! columns.

use vstd::prelude::*;

use crate::text::{is_ascii_text, lemma_ascii_concat, lemma_contains_push, spaces};

verus! {

/// Millimetres in one inch, in tenths.
pub const MM_PER_INCH_TENTHS: u128 = 254;

/// Largest number of characters that [`parse_decimal`] reads.
pub const MAX_DIGITS: usize = 16;

/// Width of a formatted number; shorter ones are padded on the left.
pub const NUMBER_WIDTH: usize = 7;

pub open spec fn is_digit(c: char) -> bool {
    '0' <= c && c <= '9'
}

pub open spec fn digit_value(c: char) -> nat {
    (c as int - '0' as int) as nat
}

/// The character of a decimal digit `d < 10`.
pub open spec fn digit_char(d: nat) -> char {
    (('0' as u32) + d as u32) as char
}

pub open spec fn pow10(n: nat) -> nat
    decreases n,
{
    if n == 0 {
        1
    } else {
        10 * pow10((n - 1) as nat)
    }
}

/// The number formed by the digits of `s`, read left to right; any other
/// character (the decimal point) is skipped.
pub open spec fn mantissa(s: Seq<char>) -> nat
    decreases s.len(),
{
    if s.len() == 0 {
        0
    } else if is_digit(s.last()) {
        mantissa(s.drop_last()) * 10 + digit_value(s.last())
    } else {
        mantissa(s.drop_last())
    }
}

/// The number of digits of `s` that follow a decimal point.
pub open spec fn scale(s: Seq<char>) -> nat
    decreases s.len(),
{
    if s.len() == 0 {
        0
    } else if is_digit(s.last()) && s.drop_last().contains('.') {
        scale(s.drop_last()) + 1
    } else {
        scale(s.drop_last())
    }
}

/// `n / d` rounded to the nearest integer, halves rounded up.
pub open spec fn round_div(n: nat, d: nat) -> nat
    recommends
        d > 0,
{
    (2 * n + d) / (2 * d)
}

/// `digits / 10^scale` inches, in ten-thousandths of a millimetre.
pub open spec fn millimetres_e4(digits: nat, scale: nat) -> nat {
    round_div(digits * 254000, pow10(scale))
}

/// `digits / 10^scale` millimetres, in ten-thousandths of an inch.
pub open spec fn inches_e4(digits: nat, scale: nat) -> nat {
    round_div(digits * 100000, 254 * pow10(scale))
}

/// The decimal digits of `n`, without leading zeros ("0" for zero).
pub open spec fn decimal(n: nat) -> Seq<char>
    decreases n,
{
    if n < 10 {
        seq![digit_char(n)]
    } else {
        decimal(n / 10).push(digit_char(n % 10))
    }
}

/// The four digits of `r < 10000`, with leading zeros.
pub open spec fn four_digits(r: nat) -> Seq<char> {
    seq![digit_char(r / 1000), digit_char((r / 100) % 10), digit_char((r / 10) % 10), digit_char(r % 10)]
}

/// `s` with spaces in front up to `n` characters.
pub open spec fn pad_left(s: Seq<char>, n: nat) -> Seq<char> {
    if s.len() >= n {
        s
    } else {
        spaces((n - s.len()) as nat) + s
    }
}

/// `q / 10^4` written with four decimal places, right-aligned in seven
/// columns (`" 0.3937"`, `"254.0000"`).
pub open spec fn fixed_point(q: nat) -> Seq<char> {
    pad_left(decimal(q / 10000) + seq!['.'] + four_digits(q % 10000), 7)
}

pub proof fn lemma_digit_char(d: nat)
    requires
        d < 10,
    ensures
        is_digit(digit_char(d)),
        (digit_char(d) as u32) < 0x80,
        digit_value(digit_char(d)) == d,
{
}

pub proof fn lemma_decimal_ascii(n: nat)
    ensures
        is_ascii_text(decimal(n)),
    decreases n,
{
    if n < 10 {
        lemma_digit_char(n);
    } else {
        lemma_decimal_ascii(n / 10);
        lemma_digit_char(n % 10);
        lemma_ascii_concat(decimal(n / 10), seq![digit_char(n % 10)]);
        assert(decimal(n / 10) + seq![digit_char(n % 10)] =~= decimal(n));
    }
}

/// A formatted number is plain ASCII.
pub proof fn lemma_fixed_point_ascii(q: nat)
    ensures
        is_ascii_text(fixed_point(q)),
{
    let r = q % 10000;
    lemma_decimal_ascii(q / 10000);
    lemma_digit_char(r / 1000);
    lemma_digit_char((r / 100) % 10);
    lemma_digit_char((r / 10) % 10);
    lemma_digit_char(r % 10);
    let body = decimal(q / 10000) + seq!['.'] + four_digits(r);
    lemma_ascii_concat(decimal(q / 10000), seq!['.']);
    lemma_ascii_concat(decimal(q / 10000) + seq!['.'], four_digits(r));
    if body.len() < 7 {
        lemma_ascii_concat(spaces((7 - body.len()) as nat), body);
    }
}

/// A decimal number: `digits / 10^scale`.
#[derive(Clone, Copy, Debug, PartialEq, Eq)]
pub struct Decimal {
    pub digits: u64,
    pub scale: u32,
}

pub proof fn lemma_pow10_monotonic(a: nat, b: nat)
    requires
        a <= b,
    ensures
        1 <= pow10(a) <= pow10(b),
    decreases b,
{
    if b > a {
        lemma_pow10_monotonic(a, (b - 1) as nat);
    } else if a > 0 {
        lemma_pow10_monotonic((a - 1) as nat, (a - 1) as nat);
    }
}

proof fn lemma_pow10_16()
    ensures
        pow10(16) == 10000000000000000,
{
    reveal_with_fuel(pow10, 17);
}

/// Reads `text` as a decimal number: its digits, and how many of them
/// follow the decimal point.
pub fn parse_decimal(text: &str) -> (r: Decimal)
    requires
        text@.len() <= MAX_DIGITS,
    ensures
        r.digits == mantissa(text@),
        r.scale == scale(text@),
        r.digits < pow10(text@.len()),
        r.scale <= text@.len(),
{
    let n = text.unicode_len();
    let ghost s = text@;
    let mut digits: u64 = 0;
    let mut places: u32 = 0;
    let mut seen_point = false;
    let mut i: usize = 0;
    proof {
        lemma_pow10_monotonic(n as nat, 16);
        lemma_pow10_16();
        assert(s.take(0) =~= Seq::<char>::empty());
    }
    while i < n
        invariant
            n == s.len(),
            s == text@,
            n <= 16,
            pow10(n as nat) <= 10000000000000000,
            i <= n,
            digits == mantissa(s.take(i as int)),
            places == scale(s.take(i as int)),
            seen_point == s.take(i as int).contains('.'),
            digits < pow10(i as nat),
            places <= i,
        decreases n - i,
    {
        let c = text.get_char(i);
        let ghost before = s.take(i as int);
        proof {
            assert(s.take(i + 1) =~= before.push(c));
            assert(s.take(i + 1).drop_last() =~= before);
            lemma_contains_push(before, c, '.');
            lemma_pow10_monotonic((i + 1) as nat, n as nat);
        }
        if '0' <= c && c <= '9' {
            let d = (c as u64) - ('0' as u64);
            proof {
                assert(digits * 10 + d < pow10((i + 1) as nat)) by (nonlinear_arith)
                    requires
                        digits < pow10(i as nat),
                        d <= 9,
                        pow10((i + 1) as nat) == 10 * pow10(i as nat),
                ;
            }
            digits = digits * 10 + d;
            if seen_point {
                places = places + 1;
            }
        } else {
            if c == '.' {
                seen_point = true;
            }
            proof {
                assert(pow10(i as nat) <= pow10((i + 1) as nat)) by {
                    lemma_pow10_monotonic(i as nat, (i + 1) as nat);
                }
            }
        }
        i = i + 1;
    }
    proof {
        assert(s.take(n as int) =~= s);
    }
    Decimal { digits, scale: places }
}

/// `10^n`.
fn pow10_u128(n: u32) -> (r: u128)
    requires
        n <= 16,
    ensures
        r == pow10(n as nat),
        1 <= r <= 10000000000000000,
{
    let mut r: u128 = 1;
    let mut i: u32 = 0;
    proof {
        lemma_pow10_monotonic(n as nat, 16);
        lemma_pow10_16();
    }
    while i < n
        invariant
            i <= n,
            n <= 16,
            r == pow10(i as nat),
            pow10(n as nat) <= 10000000000000000,
        decreases n - i,
    {
        proof {
            lemma_pow10_monotonic((i + 1) as nat, n as nat);
        }
        r = r * 10;
        i = i + 1;
    }
    r
}

/// `value` inches in ten-thousandths of a millimetre (`value * 25.4`),
/// rounded to the nearest, halves up.
pub fn inches_to_millimetres(value: Decimal) -> (r: u128)
    requires
        value.digits < pow10(MAX_DIGITS as nat),
        value.scale <= MAX_DIGITS,
    ensures
        r == millimetres_e4(value.digits as nat, value.scale as nat),
{
    proof {
        lemma_pow10_16();
    }
    let d = pow10_u128(value.scale);
    let m = value.digits as u128;
    proof {
        assert(m * 254000 <= 10000000000000000 * 254000) by (nonlinear_arith)
            requires
                m <= 10000000000000000,
        ;
    }
    let n = m * 254000;
    (2 * n + d) / (2 * d)
}

/// `value` millimetres in ten-thousandths of an inch (`value / 25.4`),
/// rounded to the nearest, halves up.
pub fn millimetres_to_inches(value: Decimal) -> (r: u128)
    requires
        value.digits < pow10(MAX_DIGITS as nat),
        value.scale <= MAX_DIGITS,
    ensures
        r == inches_e4(value.digits as nat, value.scale as nat),
{
    proof {
        lemma_pow10_16();
    }
    let p = pow10_u128(value.scale);
    let m = value.digits as u128;
    proof {
        assert(m * 100000 <= 10000000000000000 * 100000) by (nonlinear_arith)
            requires
                m <= 10000000000000000,
        ;
    }
    let n = m * 100000;
    let d = MM_PER_INCH_TENTHS * p;
    (2 * n + d) / (2 * d)
}

/// Appends the decimal digits of `n` to `out`.
fn push_decimal(n: u128, out: &mut Vec<char>)
    ensures
        final(out)@ == old(out)@ + decimal(n as nat),
    decreases n,
{
    if n >= 10 {
        push_decimal(n / 10, out);
    }
    out.push((('0' as u8) + ((n % 10) as u8)) as char);
    proof {
        if n >= 10 {
            assert(old(out)@ + decimal(n as nat) =~= old(out)@ + decimal((n / 10) as nat) + seq![
                digit_char((n % 10) as nat)]);
        }
    }
}

/// Writes `q / 10^4` with four decimal places, right-aligned in seven
/// columns.
pub fn format_fixed4(q: u128) -> (r: Vec<char>)
    ensures
        r@ == fixed_point(q as nat),
{
    let mut body: Vec<char> = Vec::new();
    push_decimal(q / 10000, &mut body);
    body.push('.');
    let f = q % 10000;
    body.push((('0' as u8) + ((f / 1000) as u8)) as char);
    body.push((('0' as u8) + (((f / 100) % 10) as u8)) as char);
    body.push((('0' as u8) + (((f / 10) % 10) as u8)) as char);
    body.push((('0' as u8) + ((f % 10) as u8)) as char);
    let ghost b = body@;
    assert(b =~= decimal((q / 10000) as nat) + seq!['.'] + four_digits((q % 10000) as nat));
    let mut r: Vec<char> = Vec::new();
    let len = body.len();
    if len < NUMBER_WIDTH {
        let mut k: usize = 0;
        while k < NUMBER_WIDTH - len
            invariant
                len == body@.len(),
                len < NUMBER_WIDTH,
                k <= NUMBER_WIDTH - len,
                r@ =~= spaces(k as nat),
            decreases NUMBER_WIDTH - len - k,
        {
            r.push(' ');
            k = k + 1;
        }
    }
    let mut j: usize = 0;
    let ghost front = r@;
    while j < len
        invariant
            len == body@.len(),
            b == body@,
            j <= len,
            r@ =~= front + b.take(j as int),
        decreases len - j,
    {
        r.push(body[j]);
        j = j + 1;
    }
    proof {
        assert(b.take(len as int) =~= b);
    }
    r
}

} // verus!
