//! Signed decimals whose zeros keep their sign, and the arithmetic on them
//! that follows the host language's decimal type.
//!
//! Sums, products and quotients are computed by `rust_decimal`: exact where
//! the exact result fits 96 bits and 28 fractional digits, rounded to fit
//! otherwise, and saturated at the largest magnitude where even that fails.
use vstd::prelude::*;

use std::cmp::Ordering;

use crate::error::MoneyError;
use crate::money::Money;
use crate::outside::{
    rounded_magnitude, checked_quotient, compare_pairs, within_limit, equal_ratio, exact_product_fits, exact_quotient,
    exact_sum_fits, is_zero_with_exponent, pair_ok,
    parse_pair, parsed_decimal, pow10, product_pair, quotient_pair, round_pair, rounded_pair,
    saturating_product, saturating_sum, sum_pair, zero_exponent_match, MANTISSA_LIMIT, MAX_SCALE,
};
use vstd::arithmetic::div_mod::{
    lemma_div_by_multiple, lemma_div_multiples_vanish_quotient, lemma_mod_multiples_basic,
    lemma_truncate_middle,
};
use vstd::arithmetic::mul::{
    lemma_mul_equality_converse, lemma_mul_is_associative, lemma_mul_is_commutative,
    lemma_mul_is_distributive_add, lemma_mul_is_distributive_add_other_way,
};
use vstd::string::StrSliceExecFns;

verus! {

/// How a value exactly halfway between two results is rounded.
#[derive(Debug, Clone, Copy, PartialEq, Eq, Structural)]
pub enum Midpoint {
    /// To the neighbour whose last digit is even.
    NearestEven,
    /// To the neighbour of larger magnitude.
    AwayFromZero,
}

/// The number `±mantissa / 10^scale`. Its sign is kept on zeros too, so that
/// `+0` and `-0` are told apart, though they are the same number.
#[derive(Debug, Clone, Copy, PartialEq, Eq, Structural)]
pub struct Dec {
    pub negative: bool,
    pub mantissa: u128,
    pub scale: u32,
}

impl Dec {
    /// The mantissa fits 96 bits and the scale is at most 28.
    pub open spec fn wf(self) -> bool {
        self.mantissa < MANTISSA_LIMIT && self.scale <= MAX_SCALE
    }

    /// The signed mantissa.
    pub open spec fn num(self) -> int {
        if self.negative {
            -(self.mantissa as int)
        } else {
            self.mantissa as int
        }
    }

    pub open spec fn is_zero(self) -> bool {
        self.mantissa == 0
    }

    /// The form in which the decimal is handed to `rust_decimal`.
    pub open spec fn pair(self) -> (i128, u32) {
        (self.num() as i128, self.scale)
    }

    /// The decimal that a signed mantissa and a scale stand for.
    pub open spec fn from_pair(p: (i128, u32)) -> Dec {
        Dec {
            negative: p.0 < 0,
            mantissa: (if p.0 < 0 { -p.0 } else { p.0 as int }) as u128,
            scale: p.1,
        }
    }

    pub open spec fn signed_zero(negative: bool) -> Dec {
        Dec { negative, mantissa: 0, scale: 0 }
    }

    /// The decimal of largest magnitude that an overflow saturates to.
    pub open spec fn largest(negative: bool) -> Dec {
        Dec { negative, mantissa: (MANTISSA_LIMIT - 1) as u128, scale: 0 }
    }

    /// `10^k` as a decimal of scale 0.
    pub open spec fn power_of_ten(k: nat) -> Dec {
        Dec { negative: false, mantissa: pow10(k) as u128, scale: 0 }
    }

    /// The decimal `num / 10^scale`.
    pub fn new(num: i64, scale: u32) -> (r: Dec)
        requires
            scale <= MAX_SCALE,
        ensures
            r.wf(),
            r.num() == num,
            r.scale == scale,
            r.negative == (num < 0),
    {
        let mantissa: u128 = if num < 0 {
            (-(num as i128)) as u128
        } else {
            num as u128
        };
        Dec { negative: num < 0, mantissa, scale }
    }

    /// The decimal with the given sign, mantissa and scale, where they are in
    /// range.
    pub fn from_parts(negative: bool, mantissa: u128, scale: u32) -> (r: Result<Dec, MoneyError>)
        ensures
            mantissa < MANTISSA_LIMIT && scale <= MAX_SCALE ==> r == Ok::<Dec, MoneyError>(
                Dec { negative, mantissa, scale },
            ),
            !(mantissa < MANTISSA_LIMIT && scale <= MAX_SCALE) ==> r == Err::<Dec, MoneyError>(
                MoneyError::InvalidDecimal,
            ),
    {
        if mantissa < MANTISSA_LIMIT && scale <= MAX_SCALE {
            Ok(Dec { negative, mantissa, scale })
        } else {
            Err(MoneyError::InvalidDecimal)
        }
    }

    /// Positive zero.
    pub fn zero() -> (r: Dec)
        ensures
            r == Dec::signed_zero(false),
    {
        Dec { negative: false, mantissa: 0, scale: 0 }
    }

    pub fn is_zero_exec(&self) -> (r: bool)
        ensures
            r == self.is_zero(),
    {
        self.mantissa == 0
    }

    pub(crate) fn to_pair(&self) -> (r: (i128, u32))
        requires
            self.wf(),
        ensures
            r == self.pair(),
            pair_ok(r),
    {
        let m = self.mantissa as i128;
        if self.negative {
            (-m, self.scale)
        } else {
            (m, self.scale)
        }
    }

    pub(crate) fn of_pair(p: (i128, u32)) -> (r: Dec)
        requires
            pair_ok(p),
        ensures
            r == Dec::from_pair(p),
            r.wf(),
            r.num() == p.0,
    {
        if p.0 < 0 {
            Dec { negative: true, mantissa: (-p.0) as u128, scale: p.1 }
        } else {
            Dec { negative: false, mantissa: p.0 as u128, scale: p.1 }
        }
    }

    /// Numerical order; the two zeros are equal.
    pub fn compare(&self, other: &Dec) -> (r: Ordering)
        requires
            self.wf(),
            other.wf(),
        ensures
            (r == Ordering::Less) == less_value(*self, *other),
            (r == Ordering::Equal) == same_value(*self, *other),
            (r == Ordering::Greater) == less_value(*other, *self),
    {
        compare_pairs(self.to_pair(), other.to_pair())
    }

    /// The same number with a cleared sign.
    pub fn abs(&self) -> (r: Dec)
        ensures
            r == (Dec { negative: false, ..*self }),
    {
        Dec { negative: false, ..*self }
    }
}

/// A value that an amount or a decimal may be built from.
#[derive(Debug, Clone)]
pub enum AmountSource {
    /// An amount, taken as it is.
    Money(Money),
    /// A whole number.
    Integer(i64),
    /// A decimal written out, such as `"-0"`, `"12.50"` or `"1e3"`.
    Text(String),
    /// A decimal, sign of zero included.
    Decimal(Dec),
}

impl AmountSource {
    pub open spec fn wf(&self) -> bool {
        match self {
            AmountSource::Money(m) => m.wf(),
            AmountSource::Decimal(d) => d.wf(),
            _ => true,
        }
    }
}

/// The text begins with a minus sign. A text that the decimal parser accepts
/// never begins with blanks, so its first character decides.
pub open spec fn leading_minus(text: Seq<char>) -> bool {
    text.len() > 0 && text[0] == '-'
}

/// The decimal that a whole number stands for.
pub open spec fn integer_dec(n: i64) -> Dec {
    Dec { negative: n < 0, mantissa: (if n < 0 { -n } else { n as int }) as u128, scale: 0 }
}

/// The decimal a text stands for. A text that the decimal parser accepts
/// keeps a written minus sign, also on a zero; a zero written with an
/// exponent that the parser refuses is `+0`.
pub open spec fn text_dec(text: Seq<char>) -> Result<Dec, MoneyError> {
    match parsed_decimal(text) {
        Some(p) => Ok(
            if leading_minus(text) {
                Dec { negative: true, ..Dec::from_pair(p) }
            } else {
                Dec::from_pair(p)
            },
        ),
        None => if zero_exponent_match(text) {
            Ok(Dec::signed_zero(false))
        } else {
            Err(MoneyError::InvalidDecimal)
        },
    }
}

/// The decimal that a source stands for; an amount is no decimal.
pub open spec fn extract_spec(source: AmountSource) -> Result<Dec, MoneyError> {
    match source {
        AmountSource::Money(_) => Err(MoneyError::InvalidDecimal),
        AmountSource::Integer(n) => Ok(integer_dec(n)),
        AmountSource::Text(t) => text_dec(t@),
        AmountSource::Decimal(d) => Ok(d),
    }
}

/// The decimal a source stands for as validation reads it: a whole number, a
/// decimal, or a text that the decimal parser accepts, as parsed.
pub open spec fn plain_decimal_spec(source: AmountSource) -> Option<Dec> {
    match source {
        AmountSource::Money(_) => None,
        AmountSource::Integer(n) => Some(integer_dec(n)),
        AmountSource::Text(t) => match parsed_decimal(t@) {
            Some(p) => Some(Dec::from_pair(p)),
            None => None,
        },
        AmountSource::Decimal(d) => Some(d),
    }
}

/// Reads a decimal the way validation does, with no special reading of a
/// minus sign or of a zero with an exponent.
pub fn plain_decimal(source: &AmountSource) -> (r: Option<Dec>)
    requires
        source.wf(),
    ensures
        r == plain_decimal_spec(*source),
        r matches Some(d) ==> d.wf(),
{
    match source {
        AmountSource::Money(_) => None,
        AmountSource::Integer(n) => Some(Dec::new(*n, 0)),
        AmountSource::Decimal(d) => Some(*d),
        AmountSource::Text(t) => match parse_pair(t.as_str()) {
            Some(p) => Some(Dec::of_pair(p)),
            None => None,
        },
    }
}

/// Reads a decimal out of a source that is not an amount.
pub fn decimal_extract(source: &AmountSource) -> (r: Result<Dec, MoneyError>)
    requires
        source.wf(),
    ensures
        r == extract_spec(*source),
        r matches Ok(d) ==> d.wf(),
{
    match source {
        AmountSource::Money(_) => Err(MoneyError::InvalidDecimal),
        AmountSource::Integer(n) => Ok(Dec::new(*n, 0)),
        AmountSource::Decimal(d) => Ok(*d),
        AmountSource::Text(t) => {
            let text = t.as_str();
            match parse_pair(text) {
                Some(p) => {
                    let d = Dec::of_pair(p);
                    if !text.is_empty() && text.get_char(0) == '-' {
                        Ok(Dec { negative: true, ..d })
                    } else {
                        Ok(d)
                    }
                },
                None => {
                    if is_zero_with_exponent(text) {
                        Ok(Dec::zero())
                    } else {
                        Err(MoneyError::InvalidDecimal)
                    }
                },
            }
        },
    }
}

/// `a` and `b` are the same number.
pub open spec fn same_value(a: Dec, b: Dec) -> bool {
    equal_ratio(a.num(), a.scale as nat, b.num(), b.scale as nat)
}

/// `a + b == c` as numbers.
pub open spec fn sum_equals(a: Dec, b: Dec, c: Dec) -> bool {
    a.num() * pow10(b.scale as nat) * pow10(c.scale as nat) + b.num() * pow10(a.scale as nat)
        * pow10(c.scale as nat) == c.num() * pow10(a.scale as nat) * pow10(b.scale as nat)
}

/// `a * b == c` as numbers.
pub open spec fn product_equals(a: Dec, b: Dec, c: Dec) -> bool {
    a.num() * b.num() * pow10(c.scale as nat) == c.num() * pow10((a.scale + b.scale) as nat)
}

/// `a` is a smaller number than `b`.
pub open spec fn less_value(a: Dec, b: Dec) -> bool {
    a.num() * pow10(b.scale as nat) < b.num() * pow10(a.scale as nat)
}

/// The sign turned over, zeros included.
pub open spec fn flip(x: Dec) -> Dec {
    Dec { negative: !x.negative, ..x }
}

/// Negation: a zero of any sign becomes `+0`.
pub open spec fn neg_spec(x: Dec) -> Dec {
    if x.is_zero() {
        Dec::signed_zero(false)
    } else {
        flip(x)
    }
}

/// Addition: two zeros give `-0` only when both are `-0`.
pub open spec fn add_spec(a: Dec, b: Dec) -> Dec {
    if a.is_zero() && b.is_zero() {
        Dec::signed_zero(a.negative && b.negative)
    } else {
        Dec::from_pair(saturating_sum(a.pair(), b.pair()))
    }
}

/// Multiplication: with a zero operand, a zero negative exactly when the
/// signs differ.
pub open spec fn mult_spec(a: Dec, b: Dec) -> Dec {
    if a.is_zero() || b.is_zero() {
        Dec::signed_zero(a.negative != b.negative)
    } else {
        Dec::from_pair(saturating_product(a.pair(), b.pair()))
    }
}

/// The quotient by a divisor that is not zero; an overflowing quotient
/// saturates.
pub open spec fn quotient_spec(a: Dec, b: Dec) -> Dec {
    if a.is_zero() {
        Dec::signed_zero(a.negative != b.negative)
    } else {
        match checked_quotient(a.pair(), b.pair()) {
            Some(p) => Dec::from_pair(p),
            None => Dec::largest(a.negative != b.negative),
        }
    }
}

pub open spec fn div_spec(a: Dec, b: Dec) -> Result<Dec, MoneyError> {
    if b.is_zero() {
        Err(MoneyError::DivisionByZero)
    } else {
        Ok(quotient_spec(a, b))
    }
}

/// Rounding to `dp` fractional digits; a zero keeps its sign.
pub open spec fn round_places_spec(x: Dec, dp: u32, mode: Midpoint) -> Dec {
    if x.scale <= dp {
        x
    } else if x.is_zero() {
        Dec { negative: x.negative, mantissa: 0, scale: dp }
    } else {
        Dec::from_pair(rounded_pair(x.pair(), dp, mode == Midpoint::AwayFromZero))
    }
}

/// Rounding to `scale` digits; a negative scale rounds to a power of ten by
/// dividing by it, rounding the quotient half away from zero and multiplying
/// back.
pub open spec fn round_spec(x: Dec, scale: i32, mode: Midpoint) -> Dec {
    if scale >= 0 {
        round_places_spec(x, scale as u32, mode)
    } else {
        let f = Dec::power_of_ten((-scale) as nat);
        mult_spec(round_places_spec(quotient_spec(x, f), 0, Midpoint::AwayFromZero), f)
    }
}

/// Plain decimal addition, with no rule for the signs of zeros.
pub open spec fn raw_add_spec(a: Dec, b: Dec) -> Dec {
    Dec::from_pair(saturating_sum(a.pair(), b.pair()))
}

/// Plain decimal subtraction.
pub open spec fn raw_sub_spec(a: Dec, b: Dec) -> Dec {
    raw_add_spec(a, flip(b))
}

/// Plain decimal multiplication.
pub open spec fn raw_mult_spec(a: Dec, b: Dec) -> Dec {
    Dec::from_pair(saturating_product(a.pair(), b.pair()))
}

/// Plain decimal division by a divisor that is not zero; an overflowing
/// quotient saturates.
pub open spec fn raw_quotient_spec(a: Dec, b: Dec) -> Dec {
    match checked_quotient(a.pair(), b.pair()) {
        Some(p) => Dec::from_pair(p),
        None => Dec::largest(a.negative != b.negative),
    }
}

/// The larger of two numbers; the first where they are equal.
pub open spec fn max_spec(a: Dec, b: Dec) -> Dec {
    if less_value(a, b) {
        b
    } else {
        a
    }
}

pub(crate) fn raw_add(a: Dec, b: Dec) -> (r: Dec)
    requires
        a.wf(),
        b.wf(),
    ensures
        r == raw_add_spec(a, b),
        r.wf(),
{
    Dec::of_pair(sum_pair(a.to_pair(), b.to_pair()))
}

pub(crate) fn raw_sub(a: Dec, b: Dec) -> (r: Dec)
    requires
        a.wf(),
        b.wf(),
    ensures
        r == raw_sub_spec(a, b),
        r.wf(),
{
    raw_add(a, flip_sign(b))
}

pub(crate) fn raw_mult(a: Dec, b: Dec) -> (r: Dec)
    requires
        a.wf(),
        b.wf(),
    ensures
        r == raw_mult_spec(a, b),
        r.wf(),
{
    Dec::of_pair(product_pair(a.to_pair(), b.to_pair()))
}

pub(crate) fn raw_quotient(a: Dec, b: Dec) -> (r: Dec)
    requires
        a.wf(),
        b.wf(),
    ensures
        r == raw_quotient_spec(a, b),
        r.wf(),
{
    match quotient_pair(a.to_pair(), b.to_pair()) {
        Some(p) => Dec::of_pair(p),
        None => Dec { negative: a.negative != b.negative, mantissa: MANTISSA_LIMIT - 1, scale: 0 },
    }
}

/// The larger of two decimals, as `Decimal::max` picks it.
pub(crate) fn max_dec(a: Dec, b: Dec) -> (r: Dec)
    requires
        a.wf(),
        b.wf(),
    ensures
        r == max_spec(a, b),
        r.wf(),
{
    match a.compare(&b) {
        Ordering::Less => b,
        _ => a,
    }
}

/// Negates the way the host language does: a zero becomes `+0`.
pub fn decimal_neg(right: Dec) -> (r: Dec)
    requires
        right.wf(),
    ensures
        r == neg_spec(right),
        r.wf(),
{
    if right.mantissa == 0 {
        Dec::zero()
    } else {
        Dec { negative: !right.negative, ..right }
    }
}

/// Turns the sign over, on zeros too.
pub(crate) fn flip_sign(x: Dec) -> (r: Dec)
    requires
        x.wf(),
    ensures
        r == flip(x),
        r.wf(),
{
    Dec { negative: !x.negative, ..x }
}

/// Adds the way the host language does.
pub fn decimal_add(left: Dec, right: Dec) -> (r: Dec)
    requires
        left.wf(),
        right.wf(),
    ensures
        r == add_spec(left, right),
        r.wf(),
        exact_sum_fits(left.pair(), right.pair()) ==> sum_equals(left, right, r),
        right.is_zero() ==> same_value(r, left),
        left.is_zero() ==> same_value(r, right),
{
    if left.mantissa == 0 && right.mantissa == 0 {
        let r = Dec { negative: left.negative && right.negative, mantissa: 0, scale: 0 };
        assert(sum_equals(left, right, r)) by {
            assert(left.num() == 0 && right.num() == 0 && r.num() == 0);
        }
        assert(0 * pow10(left.scale as nat) == 0);
        assert(0 * pow10(right.scale as nat) == 0);
        assert(0 * pow10(0) == 0);
        r
    } else {
        let p = sum_pair(left.to_pair(), right.to_pair());
        let r = Dec::of_pair(p);
        proof {
            if exact_sum_fits(left.pair(), right.pair()) {
                let s = crate::outside::max_scale_of(left.pair(), right.pair());
                lemma_sum_from_lifted(left, right, r, s);
            }
        }
        r
    }
}

/// Multiplies the way the host language does.
pub fn decimal_mult(left: Dec, right: Dec) -> (r: Dec)
    requires
        left.wf(),
        right.wf(),
    ensures
        r == mult_spec(left, right),
        r.wf(),
        exact_product_fits(left.pair(), right.pair()) ==> product_equals(left, right, r),
        exact_product_fits(left.pair(), right.pair()) && !left.is_zero() && !right.is_zero()
            ==> r.num() == left.num() * right.num() && r.scale == left.scale + right.scale,
{
    if left.mantissa == 0 || right.mantissa == 0 {
        let r = Dec { negative: left.negative != right.negative, mantissa: 0, scale: 0 };
        assert(product_equals(left, right, r)) by {
            assert(left.num() == 0 || right.num() == 0);
            assert(left.num() * right.num() == 0) by (nonlinear_arith)
                requires
                    left.num() == 0 || right.num() == 0,
            ;
            assert(pow10(0) == 1);
            assert(r.num() == 0);
            assert(0 * pow10((left.scale + right.scale) as nat) == 0);
        }
        r
    } else {
        Dec::of_pair(product_pair(left.to_pair(), right.to_pair()))
    }
}

/// Divides the way the host language does; a zero divisor is an error.
pub fn decimal_div(left: Dec, right: Dec) -> (r: Result<Dec, MoneyError>)
    requires
        left.wf(),
        right.wf(),
    ensures
        r == div_spec(left, right),
        r matches Ok(d) ==> d.wf(),
        forall|w: (int, nat)| #[trigger]
            exact_quotient(left.pair(), right.pair(), w.0, w.1) ==> (r matches Ok(d)
                && equal_ratio(d.num(), d.scale as nat, w.0, w.1)),
{
    if right.mantissa == 0 {
        return Err(MoneyError::DivisionByZero);
    }
    if left.mantissa == 0 {
        let r = Dec { negative: left.negative != right.negative, mantissa: 0, scale: 0 };
        assert forall|w: (int, nat)| #[trigger]
            exact_quotient(left.pair(), right.pair(), w.0, w.1) implies equal_ratio(
            r.num(),
            r.scale as nat,
            w.0,
            w.1,
        ) by {
            lemma_pow10_positive(left.scale as nat);
            assert(left.pair().0 == 0);
            assert(right.pair().0 == right.num());
            assert(0 * pow10(right.scale as nat) * pow10(w.1) == 0) by (nonlinear_arith);
            assert(w.0 * right.num() * pow10(left.scale as nat) == 0);
            assert(w.0 == 0) by (nonlinear_arith)
                requires
                    w.0 * right.num() * pow10(left.scale as nat) == 0,
                    right.num() != 0,
                    pow10(left.scale as nat) >= 1,
            ;
            assert(pow10(0) == 1);
            assert(0 * pow10(w.1) == 0);
        }
        return Ok(r);
    }
    match quotient_pair(left.to_pair(), right.to_pair()) {
        Some(p) => Ok(Dec::of_pair(p)),
        None => Ok(
            Dec { negative: left.negative != right.negative, mantissa: MANTISSA_LIMIT - 1, scale: 0 },
        ),
    }
}

fn round_places(x: Dec, dp: u32, mode: Midpoint) -> (r: Dec)
    requires
        x.wf(),
    ensures
        r == round_places_spec(x, dp, mode),
        r.wf(),
{
    if x.scale <= dp {
        x
    } else if x.mantissa == 0 {
        Dec { negative: x.negative, mantissa: 0, scale: dp }
    } else {
        Dec::of_pair(round_pair(x.to_pair(), dp, mode))
    }
}

fn power_of_ten(k: u32) -> (r: Dec)
    requires
        k <= MAX_SCALE,
    ensures
        r == Dec::power_of_ten(k as nat),
        r.mantissa == pow10(k as nat),
        r.mantissa >= 1,
        r.wf(),
{
    let mut m: u128 = 1;
    let mut i: u32 = 0;
    while i < k
        invariant
            i <= k <= MAX_SCALE,
            m == pow10(i as nat),
        decreases k - i,
    {
        proof {
            lemma_pow10_monotone(i as nat, MAX_SCALE as nat);
            reveal_with_fuel(pow10, 29);
        }
        m = m * 10;
        i = i + 1;
    }
    proof {
        lemma_pow10_monotone(k as nat, MAX_SCALE as nat);
        lemma_pow10_positive(k as nat);
        reveal_with_fuel(pow10, 29);
    }
    Dec { negative: false, mantissa: m, scale: 0 }
}

/// Rounds with the given midpoint rule; a negative scale goes through the
/// quotient by the power of ten and always breaks ties away from zero.
pub fn decimal_round_with(value: Dec, scale: i32, mode: Midpoint) -> (r: Dec)
    requires
        value.wf(),
        scale >= -(MAX_SCALE as i32),
    ensures
        r == round_spec(value, scale, mode),
        r.wf(),
        scale < 0 && value.scale - scale <= MAX_SCALE && within_limit(
            rounded_to_whole(value.num(), (value.scale - scale) as nat) * pow10((-scale) as nat),
        ) ==> r.num() == rounded_to_whole(value.num(), (value.scale - scale) as nat) * pow10(
            (-scale) as nat,
        ) && r.scale == 0,
{
    if scale >= 0 {
        return round_places(value, scale as u32, mode);
    }
    let factor = power_of_ten((-scale) as u32);
    let quotient = match decimal_div(value, factor) {
        Ok(q) => q,
        Err(_) => {
            proof {
                assert(false);
            }
            factor
        },
    };
    let whole = round_places(quotient, 0, Midpoint::AwayFromZero);
    let r = decimal_mult(whole, factor);
    proof {
        let k = (-scale) as nat;
        let d = (value.scale - scale) as nat;
        if value.scale - scale <= MAX_SCALE && within_limit(
            rounded_to_whole(value.num(), d) * pow10(k),
        ) {
            lemma_pow10_positive(k);
            lemma_pow10_positive(value.scale as nat);
            assert(factor.pair().0 == pow10(k));
            assert(whole.scale == 0);
            if value.is_zero() {
                lemma_pow10_positive((d - 1) as nat);
                assert(rounded_to_whole(value.num(), d) == 0);
                assert(0 * pow10(k) == 0);
            } else {
                lemma_pow10_add(value.scale as nat, k);
                assert(value.scale as nat + k == d);
                assert(pow10(0) == 1);
                assert(value.pair().0 == value.num());
                assert(value.num() * pow10(k) * pow10(value.scale as nat) == value.num() * pow10(0)
                    * pow10(d)) by (nonlinear_arith)
                    requires
                        pow10(d) == pow10(value.scale as nat) * pow10(k),
                        pow10(0) == 1,
                ;
                let w = (value.num(), d);
                assert(exact_quotient(value.pair(), factor.pair(), w.0, w.1));
                lemma_whole_rounding(quotient, value.num(), d);
                if !whole.is_zero() {
                    assert(whole.pair().0 == whole.num());
                    assert(exact_product_fits(whole.pair(), factor.pair()));
                } else {
                    assert(0 * pow10(k) == 0);
                }
            }
        }
    }
    r
}

/// Rounds the way the host language does: half to even at a scale of zero or
/// more, half away from zero on the quotient at a negative scale.
pub fn decimal_round(value: Dec, scale: i32) -> (r: Dec)
    requires
        value.wf(),
        scale >= -(MAX_SCALE as i32),
    ensures
        r == round_spec(value, scale, Midpoint::NearestEven),
        r.wf(),
        scale < 0 && value.scale - scale <= MAX_SCALE && within_limit(
            rounded_to_whole(value.num(), (value.scale - scale) as nat) * pow10((-scale) as nat),
        ) ==> r.num() == rounded_to_whole(value.num(), (value.scale - scale) as nat) * pow10(
            (-scale) as nat,
        ) && r.scale == 0,
{
    decimal_round_with(value, scale, Midpoint::NearestEven)
}

pub proof fn lemma_pow10_add(a: nat, b: nat)
    ensures
        pow10(a + b) == pow10(a) * pow10(b),
    decreases a,
{
    if a == 0 {
        assert(pow10(0) == 1);
    } else {
        let k = (a - 1) as nat;
        lemma_pow10_add(k, b);
        assert(pow10(a) == 10 * pow10(k));
        assert(pow10(a + b) == 10 * pow10((a + b - 1) as nat));
        assert((a + b - 1) as nat == k + b);
        lemma_mul_is_associative(10, pow10(k) as int, pow10(b) as int);
    }
}

/// A sum computed at the common scale `s`, read back as a relation between
/// the three numbers.
proof fn lemma_sum_from_lifted(a: Dec, b: Dec, r: Dec, s: nat)
    requires
        a.scale <= s,
        b.scale <= s,
        r.num() * pow10(s) == (a.num() * pow10((s - a.scale) as nat) + b.num() * pow10(
            (s - b.scale) as nat,
        )) * pow10(r.scale as nat),
    ensures
        sum_equals(a, b, r),
{
    let x = pow10((s - a.scale) as nat) as int;
    let y = pow10((s - b.scale) as nat) as int;
    let pa = pow10(a.scale as nat) as int;
    let pb = pow10(b.scale as nat) as int;
    let pr = pow10(r.scale as nat) as int;
    let ps = pow10(s) as int;
    lemma_pow10_add((s - a.scale) as nat, a.scale as nat);
    lemma_pow10_add((s - b.scale) as nat, b.scale as nat);
    assert(((s - a.scale) as nat + a.scale as nat) == s);
    assert(((s - b.scale) as nat + b.scale as nat) == s);
    lemma_pow10_positive(s);
    let an = a.num();
    let bn = b.num();
    let rn = r.num();
    let l = an * x + bn * y;
    let q = pa * pb;
    lemma_mul_is_distributive_add_other_way(q, an * x, bn * y);
    lemma_scale_swap(an, x, pa, pb, ps);
    lemma_scale_swap(bn, y, pb, pa, ps);
    assert(bn * y * (pb * pa) == bn * y * q) by {
        lemma_mul_is_commutative(pb, pa);
    }
    assert(l * q == an * ps * pb + bn * ps * pa);
    assert((rn * ps) * q == (l * pr) * q);
    lemma_three_swap(l, pr, q);
    assert((rn * ps) * q == (an * ps * pb + bn * ps * pa) * pr);
    lemma_gather(an, bn, ps, pa, pb, pr);
    lemma_three_swap(rn, ps, q);
    assert(ps * (rn * pa * pb) == ps * (an * pb * pr + bn * pa * pr)) by {
        lemma_mul_is_associative(rn, pa, pb);
        lemma_mul_is_commutative(rn * q, ps);
    }
    lemma_mul_equality_converse(ps, rn * pa * pb, an * pb * pr + bn * pa * pr);
}

proof fn lemma_scale_swap(a: int, x: int, p: int, o: int, s: int)
    requires
        s == x * p,
    ensures
        a * x * (p * o) == a * s * o,
{
    assert(a * x * (p * o) == a * (x * p) * o) by (nonlinear_arith);
}

proof fn lemma_three_swap(a: int, b: int, c: int)
    ensures
        (a * b) * c == (a * c) * b,
{
    assert((a * b) * c == (a * c) * b) by (nonlinear_arith);
}

proof fn lemma_gather(an: int, bn: int, ps: int, pa: int, pb: int, pr: int)
    ensures
        (an * ps * pb + bn * ps * pa) * pr == ps * (an * pb * pr + bn * pa * pr),
{
    assert(an * ps * pb * pr == ps * (an * pb * pr)) by (nonlinear_arith);
    assert(bn * ps * pa * pr == ps * (bn * pa * pr)) by (nonlinear_arith);
    lemma_mul_is_distributive_add_other_way(pr, an * ps * pb, bn * ps * pa);
    lemma_mul_is_distributive_add(ps, an * pb * pr, bn * pa * pr);
}

/// Where `t` is `c` minus `n` (as numbers), `n + t` is `c`.
pub proof fn lemma_residual_sum(n: Dec, c: Dec, t: Dec)
    requires
        sum_equals(c, neg_spec(n), t),
    ensures
        sum_equals(n, t, c),
{
    let pn = pow10(n.scale as nat) as int;
    let pc = pow10(c.scale as nat) as int;
    let pt = pow10(t.scale as nat) as int;
    lemma_pow10_positive(n.scale as nat);
    let nn = n.num();
    let cn = c.num();
    let tn = t.num();
    if n.is_zero() {
        assert(pow10(0) == 1);
        assert(neg_spec(n).num() == 0);
        assert(neg_spec(n).scale == 0);
        assert(cn * 1 * pt + 0 * pc * pt == tn * pc * 1);
        assert(cn * pt == tn * pc) by (nonlinear_arith)
            requires
                cn * 1 * pt + 0 * pc * pt == tn * pc * 1,
        ;
        assert(nn == 0);
        assert(nn * pt * pc + tn * pn * pc == cn * pn * pt) by (nonlinear_arith)
            requires
                cn * pt == tn * pc,
                nn == 0,
        ;
    } else {
        assert(neg_spec(n).num() == -nn);
        assert(cn * pn * pt + (-nn) * pc * pt == tn * pc * pn);
        assert(nn * pt * pc + tn * pn * pc == cn * pn * pt) by (nonlinear_arith)
            requires
                cn * pn * pt + (-nn) * pc * pt == tn * pc * pn,
        ;
    }
}

/// The integer nearest to `num / 10^d`, ties away from zero.
pub open spec fn rounded_to_whole(num: int, d: nat) -> int {
    if num < 0 {
        -(rounded_magnitude((-num) as nat, d, true) as int)
    } else {
        rounded_magnitude(num as nat, d, true) as int
    }
}

proof fn lemma_round_exact_multiple(k: nat, d: nat, away: bool)
    requires
        d > 0,
    ensures
        rounded_magnitude(k * pow10(d), d, away) == k,
{
    lemma_pow10_positive(d);
    lemma_pow10_positive((d - 1) as nat);
    let p = pow10(d) as int;
    lemma_mod_multiples_basic(k as int, p);
    lemma_div_by_multiple(k as int, p);
}

/// Rounding is the same on a magnitude and on that magnitude written with
/// more digits.
proof fn lemma_round_rescaled(a: nat, d: nat, e: nat, away: bool)
    requires
        0 < d <= e,
    ensures
        rounded_magnitude(a * pow10((e - d) as nat), e, away) == rounded_magnitude(a, d, away),
{
    let m = pow10((e - d) as nat) as int;
    let p = pow10(d) as int;
    let p1 = pow10((d - 1) as nat) as int;
    lemma_pow10_positive((e - d) as nat);
    lemma_pow10_positive(d);
    lemma_pow10_positive((d - 1) as nat);
    lemma_pow10_add((e - d) as nat, d);
    assert((e - d) as nat + d == e);
    lemma_pow10_add((e - d) as nat, (d - 1) as nat);
    assert(((e - d) as nat + (d - 1) as nat) as nat == (e - 1) as nat);
    let b = a * m;
    assert(b == m * a) by {
        lemma_mul_is_commutative(a as int, m);
    }
    lemma_div_multiples_vanish_quotient(m, a as int, p);
    lemma_truncate_middle(a as int, m, p);
    assert(pow10(e) == m * p);
    assert(pow10((e - 1) as nat) == m * p1);
    let rest = (a as int) % p;
    let half = 5 * p1;
    assert(5 * (m * p1) == m * half) by (nonlinear_arith)
        requires
            half == 5 * p1,
    ;
    assert((m * rest > m * half) == (rest > half)) by (nonlinear_arith)
        requires
            m > 0,
    ;
    assert((m * rest == m * half) == (rest == half)) by (nonlinear_arith)
        requires
            m > 0,
    ;
}

/// Where `q / 10^q.scale` and `num / 10^d` are the same number, rounding `q`
/// to a whole number gives the integer nearest to `num / 10^d`.
proof fn lemma_whole_rounding(q: Dec, num: int, d: nat)
    requires
        q.wf(),
        d > 0,
        q.num() * pow10(d) == num * pow10(q.scale as nat),
    ensures
        round_places_spec(q, 0, Midpoint::AwayFromZero).num() == rounded_to_whole(num, d),
{
    let qs = q.scale as nat;
    lemma_pow10_positive(d);
    lemma_pow10_positive(qs);
    let qa: nat = q.mantissa as nat;
    let na: nat = if num < 0 { (-num) as nat } else { num as nat };
    assert(qa * pow10(d) == na * pow10(qs)) by {
        if q.negative {
            assert((-q.num()) * pow10(d) == -(q.num() * pow10(d))) by (nonlinear_arith);
        }
        if num < 0 {
            assert((-num) * pow10(qs) == -(num * pow10(qs))) by (nonlinear_arith);
        }
        assert(q.num() * pow10(d) >= 0 <==> num * pow10(qs) >= 0);
        assert(q.num() >= 0 <==> q.num() * pow10(d) >= 0) by (nonlinear_arith)
            requires
                pow10(d) >= 1,
        ;
        assert(num >= 0 <==> num * pow10(qs) >= 0) by (nonlinear_arith)
            requires
                pow10(qs) >= 1,
        ;
    }
    assert((q.num() < 0) == (num < 0)) by {
        assert(q.num() >= 0 <==> q.num() * pow10(d) >= 0) by (nonlinear_arith)
            requires
                pow10(d) >= 1,
        ;
        assert(num >= 0 <==> num * pow10(qs) >= 0) by (nonlinear_arith)
            requires
                pow10(qs) >= 1,
        ;
    }
    if qs == 0 {
        assert(pow10(0) == 1);
        assert(pow10(qs) == 1);
        assert(na == qa * pow10(d)) by (nonlinear_arith)
            requires
                qa * pow10(d) == na * pow10(qs),
                pow10(qs) == 1,
        ;
        lemma_round_exact_multiple(qa, d, true);
        if q.is_zero() {
            assert(na == 0) by (nonlinear_arith)
                requires
                    na == qa * pow10(d),
                    qa == 0,
            ;
        }
    } else {
        if qs <= d {
            lemma_pow10_add((d - qs) as nat, qs);
            assert((d - qs) as nat + qs == d);
            let m = pow10((d - qs) as nat);
            assert(pow10(qs) * na == pow10(qs) * (qa * m)) by (nonlinear_arith)
                requires
                    qa * pow10(d) == na * pow10(qs),
                    pow10(d) == m * pow10(qs),
            ;
            lemma_mul_equality_converse(pow10(qs) as int, na as int, (qa * m) as int);
            lemma_round_rescaled(qa, qs, d, true);
        } else {
            lemma_pow10_add((qs - d) as nat, d);
            assert((qs - d) as nat + d == qs);
            let m = pow10((qs - d) as nat);
            assert(pow10(d) * qa == pow10(d) * (na * m)) by (nonlinear_arith)
                requires
                    qa * pow10(d) == na * pow10(qs),
                    pow10(qs) == m * pow10(d),
            ;
            lemma_mul_equality_converse(pow10(d) as int, qa as int, (na * m) as int);
            lemma_round_rescaled(na, d, qs, true);
        }
        if q.is_zero() {
            assert(na == 0) by (nonlinear_arith)
                requires
                    qa * pow10(d) == na * pow10(qs),
                    qa == 0,
                    pow10(qs) >= 1,
            ;
            assert(rounded_magnitude(0, qs, true) == 0) by {
                lemma_pow10_positive((qs - 1) as nat);
            }
            assert(rounded_magnitude(0, d, true) == 0) by {
                lemma_pow10_positive((d - 1) as nat);
            }
        }
    }
}

pub proof fn lemma_pow10_positive(n: nat)
    ensures
        pow10(n) >= 1,
    decreases n,
{
    if n > 0 {
        lemma_pow10_positive((n - 1) as nat);
    }
}

pub proof fn lemma_pow10_monotone(a: nat, b: nat)
    requires
        a <= b,
    ensures
        pow10(a) <= pow10(b),
    decreases b,
{
    if a < b {
        lemma_pow10_monotone(a, (b - 1) as nat);
        lemma_pow10_positive((b - 1) as nat);
    }
}

/// Negating twice gives a nonzero decimal back unchanged, and turns either
/// zero into `+0`.
pub proof fn lemma_double_negation(x: Dec)
    requires
        x.wf(),
    ensures
        !x.is_zero() ==> neg_spec(neg_spec(x)) == x,
        x.is_zero() ==> neg_spec(neg_spec(x)) == Dec::signed_zero(false),
        neg_spec(neg_spec(x)).negative == (x.negative && !x.is_zero()),
{
}

/// The sum of two zeros is `-0` when both are `-0`, and `+0` otherwise.
pub proof fn lemma_zero_sum_sign(a: Dec, b: Dec)
    requires
        a.is_zero(),
        b.is_zero(),
    ensures
        add_spec(a, b).is_zero(),
        add_spec(a, b).negative == (a.negative && b.negative),
{
}

/// A product with a zero factor is a zero, negative exactly when the signs of
/// the two factors differ, whatever the other factor's magnitude.
pub proof fn lemma_zero_product_sign(zero: Dec, x: Dec)
    requires
        zero.is_zero(),
    ensures
        mult_spec(zero, x).is_zero(),
        mult_spec(zero, x).negative == (zero.negative != x.negative),
        zero.negative ==> (mult_spec(zero, x).negative == !x.negative),
{
}

/// Dividing by a zero fails, whatever the dividend.
pub proof fn lemma_division_by_zero(x: Dec, zero: Dec)
    requires
        zero.is_zero(),
    ensures
        div_spec(x, zero) == Err::<Dec, MoneyError>(MoneyError::DivisionByZero),
{
}

/// Rounding to a power of ten leaves a whole multiple of it as it is. At a
/// negative scale `-k`, `decimal_round` gives the nearest multiple of `10^k`
/// at scale 0; rounding that again to `-k` digits finds the same multiple, so
/// rounding twice gives what rounding once gives.
pub proof fn lemma_round_to_power_idempotent(v: Dec, k: nat)
    requires
        v.wf(),
        k >= 1,
    ensures
        rounded_to_whole(rounded_to_whole(v.num(), (v.scale + k) as nat) * pow10(k), k)
            == rounded_to_whole(v.num(), (v.scale + k) as nat),
{
    let n = rounded_to_whole(v.num(), (v.scale + k) as nat);
    if n < 0 {
        let a = (-n) as nat;
        lemma_round_exact_multiple(a, k, true);
        assert(-(n * pow10(k)) == a * pow10(k)) by (nonlinear_arith)
            requires
                a == -n,
        ;
        lemma_pow10_positive(k);
        assert(n * pow10(k) < 0) by (nonlinear_arith)
            requires
                n < 0,
                pow10(k) >= 1,
        ;
    } else {
        lemma_round_exact_multiple(n as nat, k, true);
        lemma_pow10_positive(k);
        assert(n * pow10(k) >= 0) by (nonlinear_arith)
            requires
                n >= 0,
                pow10(k) >= 1,
        ;
    }
}

/// Rounding twice to the same number of fractional digits gives the result
/// of rounding once.
pub proof fn lemma_round_idempotent(v: Dec, scale: i32, mode: Midpoint)
    requires
        v.wf(),
        scale >= 0,
    ensures
        round_spec(round_spec(v, scale, mode), scale, mode) == round_spec(v, scale, mode),
{
}

} // verus!
