//! The calls into `rust_decimal` and `regex` that the decimal layer relies on.
//!
//! A decimal crosses this boundary as a pair of a signed 96-bit mantissa and a
//! scale between 0 and 28: the number `pair.0 / 10^pair.1`. Each wrapper
//! builds its operands with `Decimal::from_i128_with_scale`, which panics only
//! outside those ranges, and reads results back with `mantissa` and `scale`.
use vstd::prelude::*;

use rust_decimal::{Decimal, RoundingStrategy};
use std::cmp::Ordering;
use std::str::FromStr;

use crate::decimals::{Dec, Midpoint};

verus! {

/// One more than the largest mantissa magnitude: 2^96.
pub const MANTISSA_LIMIT: u128 = 0x1_0000_0000_0000_0000_0000_0000;

/// The largest number of fractional digits.
pub const MAX_SCALE: u32 = 28;

/// Ten to the power `n`.
pub open spec fn pow10(n: nat) -> nat
    decreases n,
{
    if n == 0 {
        1
    } else {
        10 * pow10((n - 1) as nat)
    }
}

/// `p` is a mantissa and a scale that `rust_decimal` can hold.
pub open spec fn pair_ok(p: (i128, u32)) -> bool {
    -(MANTISSA_LIMIT as int) < p.0 < MANTISSA_LIMIT as int && p.1 <= MAX_SCALE
}

/// `m1 / 10^s1` and `m2 / 10^s2` are the same number.
pub open spec fn equal_ratio(m1: int, s1: nat, m2: int, s2: nat) -> bool {
    m1 * pow10(s2) == m2 * pow10(s1)
}

/// The value of the pair `p`, compared with `m / 10^s`.
pub open spec fn pair_equals(p: (i128, u32), m: int, s: nat) -> bool {
    equal_ratio(p.0 as int, p.1 as nat, m, s)
}

pub open spec fn within_limit(m: int) -> bool {
    -(MANTISSA_LIMIT as int) < m < MANTISSA_LIMIT as int
}

pub open spec fn max_scale_of(a: (i128, u32), b: (i128, u32)) -> nat {
    if a.1 >= b.1 { a.1 as nat } else { b.1 as nat }
}

/// The mantissa of `p` brought to the larger scale `s`.
pub open spec fn lifted(p: (i128, u32), s: nat) -> int {
    p.0 * pow10((s - p.1) as nat)
}

/// The sum of `a` and `b` needs no rounding: both operands and the exact sum
/// fit 96 bits at the larger of the two scales.
pub open spec fn exact_sum_fits(a: (i128, u32), b: (i128, u32)) -> bool {
    let s = max_scale_of(a, b);
    within_limit(lifted(a, s)) && within_limit(lifted(b, s)) && within_limit(
        lifted(a, s) + lifted(b, s),
    )
}

/// The product of `a` and `b` needs no rounding.
pub open spec fn exact_product_fits(a: (i128, u32), b: (i128, u32)) -> bool {
    a.1 + b.1 <= MAX_SCALE && within_limit(a.0 * b.0)
}

/// `q / 10^s` is the exact quotient `a / b`, and it fits.
pub open spec fn exact_quotient(a: (i128, u32), b: (i128, u32), q: int, s: nat) -> bool {
    b.0 != 0 && s <= MAX_SCALE && within_limit(q) && q * b.0 * pow10(a.1 as nat) == a.0 * pow10(
        b.1 as nat,
    ) * pow10(s)
}

/// What `Decimal::saturating_add` returns.
pub uninterp spec fn saturating_sum(a: (i128, u32), b: (i128, u32)) -> (i128, u32);

/// What `Decimal::saturating_mul` returns.
pub uninterp spec fn saturating_product(a: (i128, u32), b: (i128, u32)) -> (i128, u32);

/// What `Decimal::checked_div` returns.
pub uninterp spec fn checked_quotient(a: (i128, u32), b: (i128, u32)) -> Option<(i128, u32)>;

/// What `Decimal::from_str` accepts and returns.
pub uninterp spec fn parsed_decimal(text: Seq<char>) -> Option<(i128, u32)>;

/// What `Decimal`'s `Display` writes with the given number of fractional
/// digits.
pub uninterp spec fn fixed_point_text(d: Dec, digits: usize) -> Seq<char>;

/// What `Decimal`'s `Display` writes with no precision asked for.
pub uninterp spec fn decimal_text(d: Dec) -> Seq<char>;

/// Whether the text is a zero written with an exponent, such as `0E-30`.
pub uninterp spec fn zero_exponent_match(text: Seq<char>) -> bool;

/// Relies on `Decimal::saturating_add`: the sum, rounded to 96 bits where it
/// must be, clamped at the bounds; exact where nothing needs rounding, and
/// never at a scale above the larger operand scale. A zero left operand gives
/// the right one back as it is, and a zero right operand the left one.
#[verifier::external_body]
pub(crate) fn sum_pair(a: (i128, u32), b: (i128, u32)) -> (r: (i128, u32))
    requires
        pair_ok(a),
        pair_ok(b),
    ensures
        r == saturating_sum(a, b),
        pair_ok(r),
        r.1 <= max_scale_of(a, b),
        a.0 == 0 ==> r == b,
        a.0 != 0 && b.0 == 0 ==> r == a,
        exact_sum_fits(a, b) ==> pair_equals(
            r,
            lifted(a, max_scale_of(a, b)) + lifted(b, max_scale_of(a, b)),
            max_scale_of(a, b),
        ),
{
    let x = Decimal::from_i128_with_scale(a.0, a.1);
    let y = Decimal::from_i128_with_scale(b.0, b.1);
    let s = x.saturating_add(y);
    (s.mantissa(), s.scale())
}

/// Relies on `Decimal::saturating_mul`: the product, rounded to 28 digits and
/// 96 bits where it must be, clamped at the bounds; where nothing needs
/// rounding and neither operand is zero, the product of the mantissas at the
/// sum of the scales.
#[verifier::external_body]
pub(crate) fn product_pair(a: (i128, u32), b: (i128, u32)) -> (r: (i128, u32))
    requires
        pair_ok(a),
        pair_ok(b),
    ensures
        r == saturating_product(a, b),
        pair_ok(r),
        exact_product_fits(a, b) ==> pair_equals(r, a.0 * b.0, (a.1 + b.1) as nat),
        exact_product_fits(a, b) && a.0 != 0 && b.0 != 0 ==> r.0 == a.0 * b.0 && r.1 == a.1
            + b.1,
{
    let x = Decimal::from_i128_with_scale(a.0, a.1);
    let y = Decimal::from_i128_with_scale(b.0, b.1);
    let p = x.saturating_mul(y);
    (p.mantissa(), p.scale())
}

/// Relies on `Decimal::checked_div`: `None` on a zero divisor or an overflow,
/// else the quotient rounded to 28 digits; exact where the exact quotient fits.
#[verifier::external_body]
pub(crate) fn quotient_pair(a: (i128, u32), b: (i128, u32)) -> (r: Option<(i128, u32)>)
    requires
        pair_ok(a),
        pair_ok(b),
    ensures
        r == checked_quotient(a, b),
        r is Some ==> pair_ok(r->0),
        forall|w: (int, nat)| #[trigger]
            exact_quotient(a, b, w.0, w.1) ==> (r is Some && pair_equals(r->0, w.0, w.1)),
{
    let x = Decimal::from_i128_with_scale(a.0, a.1);
    let y = Decimal::from_i128_with_scale(b.0, b.1);
    match x.checked_div(y) {
        Some(d) => Some((d.mantissa(), d.scale())),
        None => None,
    }
}

/// Relies on `Ord for Decimal`: numerical order, whatever the scales.
#[verifier::external_body]
pub(crate) fn compare_pairs(a: (i128, u32), b: (i128, u32)) -> (r: Ordering)
    requires
        pair_ok(a),
        pair_ok(b),
    ensures
        (r == Ordering::Less) == (a.0 * pow10(b.1 as nat) < b.0 * pow10(a.1 as nat)),
        (r == Ordering::Equal) == (a.0 * pow10(b.1 as nat) == b.0 * pow10(a.1 as nat)),
        (r == Ordering::Greater) == (a.0 * pow10(b.1 as nat) > b.0 * pow10(a.1 as nat)),
{
    let x = Decimal::from_i128_with_scale(a.0, a.1);
    let y = Decimal::from_i128_with_scale(b.0, b.1);
    x.cmp(&y)
}

/// The magnitude `m` cut down by `d` digits, with the midpoint rule of
/// `Decimal::round_dp_with_strategy`.
pub open spec fn rounded_magnitude(m: nat, d: nat, away: bool) -> nat {
    let q = m / pow10(d);
    let rest = m % pow10(d);
    let half = 5 * pow10((d - 1) as nat);
    if rest > half || (rest == half && (away || q % 2 == 1)) {
        q + 1
    } else {
        q
    }
}

/// `p` rounded to `dp` fractional digits: unchanged where its scale is not
/// above `dp`.
pub open spec fn rounded_pair(p: (i128, u32), dp: u32, away: bool) -> (i128, u32) {
    if p.1 <= dp {
        p
    } else {
        let m: nat = if p.0 < 0 { (-p.0) as nat } else { p.0 as nat };
        let q = rounded_magnitude(m, (p.1 - dp) as nat, away);
        (if p.0 < 0 { -q } else { q as int } as i128, dp)
    }
}

/// Relies on `Decimal::round_dp_with_strategy` with the two midpoint
/// strategies: truncate to `dp` digits, then add one to the magnitude where the
/// dropped part is above one half, or is one half and the strategy says so.
#[verifier::external_body]
pub(crate) fn round_pair(p: (i128, u32), dp: u32, mode: Midpoint) -> (r: (i128, u32))
    requires
        pair_ok(p),
    ensures
        r == rounded_pair(p, dp, mode == Midpoint::AwayFromZero),
        pair_ok(r),
{
    let strategy = match mode {
        Midpoint::NearestEven => RoundingStrategy::MidpointNearestEven,
        Midpoint::AwayFromZero => RoundingStrategy::MidpointAwayFromZero,
    };
    let d = Decimal::from_i128_with_scale(p.0, p.1).round_dp_with_strategy(dp, strategy);
    (d.mantissa(), d.scale())
}

/// Relies on `Decimal::from_str`: the decimal that the text spells, if any.
#[verifier::external_body]
pub(crate) fn parse_pair(text: &str) -> (r: Option<(i128, u32)>)
    ensures
        r == parsed_decimal(text@),
        r is Some ==> pair_ok(r->0),
{
    match Decimal::from_str(text) {
        Ok(d) => Some((d.mantissa(), d.scale())),
        Err(_) => None,
    }
}

/// `Decimal`'s `Display` writes the integer digits (at least one), the point
/// and `digits` fractional digits into a buffer of 32 characters: at most 28
/// fractional digits and fewer than `31 - digits` integer digits fit.
pub open spec fn fixed_text_fits(d: Dec, digits: usize) -> bool {
    1 <= digits <= MAX_SCALE && d.mantissa < pow10((d.scale + 31 - digits) as nat)
}

/// Relies on `Decimal`'s `Display` with a precision: fixed-point text of the
/// sign, the integer digits and `digits` fractional digits. It writes into a
/// buffer of 32 characters and panics past it, which `fixed_text_fits` rules
/// out.
#[verifier::external_body]
pub(crate) fn fixed_text(d: Dec, digits: usize) -> (r: String)
    requires
        d.wf(),
        fixed_text_fits(d, digits),
    ensures
        r@ == fixed_point_text(d, digits),
{
    let mut x = Decimal::from_i128_with_scale(d.mantissa as i128, d.scale);
    x.set_sign_negative(d.negative);
    format!("{:.*}", digits, x)
}

/// Relies on `Decimal`'s `Display`: the sign and the digits at the decimal's
/// own scale.
#[verifier::external_body]
pub(crate) fn plain_text(d: Dec) -> (r: String)
    requires
        d.wf(),
    ensures
        r@ == decimal_text(d),
{
    let mut x = Decimal::from_i128_with_scale(d.mantissa as i128, d.scale);
    x.set_sign_negative(d.negative);
    format!("{}", x)
}

/// Relies on `regex::Regex::is_match` with the pattern of a zero followed by
/// an exponent; the pattern is a valid one, so building it does not fail.
#[verifier::external_body]
pub(crate) fn is_zero_with_exponent(text: &str) -> (r: bool)
    ensures
        r == zero_exponent_match(text@),
{
    regex::Regex::new(r"^0(\.0+)?[eE][+-]\d+$").unwrap().is_match(text)
}

} // verus!
