//! An amount split into net and tax, with the gross derived from the two.
use vstd::prelude::*;

use std::cmp::Ordering;

use crate::decimals::{
    add_spec, decimal_add, decimal_div, decimal_extract, decimal_mult, decimal_neg,
    extract_spec, lemma_residual_sum, plain_decimal, plain_decimal_spec, less_value, max_dec, max_spec, mult_spec, neg_spec,
    quotient_spec, round_spec, same_value, sum_equals, AmountSource, Dec, Midpoint,
};
use crate::error::MoneyError;
use crate::money::{money_new_spec, Money, MONEY_PRECISION};
use crate::money_vat_ratio::MoneyWithVATRatio;
use crate::decimals::{lemma_pow10_monotone, lemma_pow10_positive};
use crate::outside::{
    exact_sum_fits, fixed_point_text, fixed_text_fits, lifted, max_scale_of, pow10, MANTISSA_LIMIT,
};
use vstd::arithmetic::mul::{
    lemma_mul_inequality, lemma_mul_is_commutative, lemma_mul_nonnegative,
    lemma_mul_unary_negation,
};
use crate::traits::Copyable;

verus! {

/// An amount as a net part and a tax part; the gross is always their sum.
#[derive(Debug, Clone, Copy)]
pub struct MoneyWithVAT {
    pub net: Money,
    pub tax: Money,
}

/// A rate of `percent` hundredths, at scale 2.
pub open spec fn rate_dec(percent: u128) -> Dec {
    Dec { negative: false, mantissa: percent, scale: 2 }
}

/// The value-added-tax rates in use, in the order they are tried.
pub open spec fn known_rates() -> Seq<Dec> {
    seq![
        rate_dec(0),
        rate_dec(5),
        rate_dec(7),
        rate_dec(10),
        rate_dec(13),
        rate_dec(16),
        rate_dec(19),
        rate_dec(20),
        rate_dec(25),
    ]
}

/// The domestic subset of the known rates.
pub open spec fn german_rates() -> Seq<Dec> {
    seq![rate_dec(0), rate_dec(5), rate_dec(7), rate_dec(16), rate_dec(19)]
}

/// `x` is one of the known rates, as a number.
pub open spec fn is_known_rate(x: Dec) -> bool {
    exists|i: int| 0 <= i < known_rates().len() && same_value(#[trigger] known_rates()[i], x)
}

pub open spec fn gross_spec(m: MoneyWithVAT) -> Dec {
    add_spec(m.net.amount, m.tax.amount)
}

/// Tax over net; exactly `+0` where the net is zero.
pub open spec fn tax_rate_spec(m: MoneyWithVAT) -> Dec {
    if m.net.amount.is_zero() {
        Dec::signed_zero(false)
    } else {
        quotient_spec(m.tax.amount, m.net.amount)
    }
}

/// How far the tax that `rate` implies on the net lies from the actual tax.
pub open spec fn implied_tax_gap(m: MoneyWithVAT, rate: Dec) -> Dec {
    let gap = add_spec(mult_spec(rate, m.net.amount), neg_spec(m.tax.amount));
    Dec { negative: false, ..gap }
}

/// The tax that `rate` implies lies within `0.05` of the actual tax.
pub open spec fn close_to_rate(m: MoneyWithVAT, rate: Dec) -> bool {
    less_value(implied_tax_gap(m, rate), rate_dec(5))
}

/// The first known rate from position `i` on that the tax lies close to.
pub open spec fn first_close_rate(m: MoneyWithVAT, i: nat) -> Option<Dec>
    decreases known_rates().len() - i,
{
    if i >= known_rates().len() {
        None
    } else if close_to_rate(m, known_rates()[i as int]) {
        Some(known_rates()[i as int])
    } else {
        first_close_rate(m, i + 1)
    }
}

/// The tax rate snapped to a known rate for display: the raw rate where it is
/// a known one, else the first known rate close enough, else the raw rate.
pub open spec fn display_rate_spec(m: MoneyWithVAT) -> Dec {
    let raw = tax_rate_spec(m);
    if is_known_rate(raw) {
        raw
    } else {
        match first_close_rate(m, 0) {
            Some(rate) => rate,
            None => raw,
        }
    }
}

/// Net rounded half to even to cents; the tax is what is left of the gross
/// rounded the same way.
pub open spec fn rounded_to_cents_spec(m: MoneyWithVAT) -> MoneyWithVAT {
    let net = round_spec(m.net.amount, 2, Midpoint::NearestEven);
    let gross = round_spec(gross_spec(m), 2, Midpoint::NearestEven);
    MoneyWithVAT {
        net: Money { amount: net },
        tax: Money { amount: add_spec(gross, neg_spec(net)) },
    }
}

pub open spec fn zero_vat() -> MoneyWithVAT {
    MoneyWithVAT {
        net: Money { amount: Dec::signed_zero(false) },
        tax: Money { amount: Dec::signed_zero(false) },
    }
}

/// The ratio of the nets and the ratio of the grosses.
pub open spec fn ratio_spec(dividend: MoneyWithVAT, divisor: MoneyWithVAT) -> MoneyWithVATRatio {
    MoneyWithVATRatio {
        net_ratio: quotient_spec(dividend.net.amount, divisor.net.amount),
        gross_ratio: quotient_spec(gross_spec(dividend), gross_spec(divisor)),
    }
}

/// The divisor's net or gross is zero.
pub open spec fn ratio_undefined(divisor: MoneyWithVAT) -> bool {
    divisor.net.amount.is_zero() || gross_spec(divisor).is_zero()
}

/// An operand of `safe_ratio`: absent is zero, present is rounded to cents.
pub open spec fn cents_or_zero(m: Option<MoneyWithVAT>) -> MoneyWithVAT {
    match m {
        Some(v) => rounded_to_cents_spec(v),
        None => zero_vat(),
    }
}

pub open spec fn net_sum_spec(s: Seq<Option<MoneyWithVAT>>) -> Dec
    decreases s.len(),
{
    if s.len() == 0 {
        Dec::signed_zero(false)
    } else {
        match s.last() {
            Some(m) => add_spec(net_sum_spec(s.drop_last()), m.net.amount),
            None => net_sum_spec(s.drop_last()),
        }
    }
}

pub open spec fn tax_sum_spec(s: Seq<Option<MoneyWithVAT>>) -> Dec
    decreases s.len(),
{
    if s.len() == 0 {
        Dec::signed_zero(false)
    } else {
        match s.last() {
            Some(m) => add_spec(tax_sum_spec(s.drop_last()), m.tax.amount),
            None => tax_sum_spec(s.drop_last()),
        }
    }
}

pub open spec fn any_present(s: Seq<Option<MoneyWithVAT>>) -> bool {
    exists|i: int| 0 <= i < s.len() && #[trigger] s[i] is Some
}

/// The largest net among the first `n` values.
pub open spec fn max_net_spec(s: Seq<MoneyWithVAT>, n: nat) -> Dec
    decreases n,
{
    if n <= 1 {
        s[0].net.amount
    } else {
        max_spec(max_net_spec(s, (n - 1) as nat), s[n - 1].net.amount)
    }
}

/// The largest gross among the first `n` values.
pub open spec fn max_gross_spec(s: Seq<MoneyWithVAT>, n: nat) -> Dec
    decreases n,
{
    if n <= 1 {
        gross_spec(s[0])
    } else {
        max_spec(max_gross_spec(s, (n - 1) as nat), gross_spec(s[n - 1]))
    }
}

/// Net and tax divided by the divisor, where both are there and the divisor
/// is not zero.
pub open spec fn safe_ratio_decimal_spec(dividend: Option<MoneyWithVAT>, divisor: Option<Dec>) -> Option<
    MoneyWithVAT,
> {
    match (dividend, divisor) {
        (Some(m), Some(d)) => if d.is_zero() {
            None
        } else {
            Some(
                MoneyWithVAT {
                    net: Money { amount: quotient_spec(m.net.amount, d) },
                    tax: Money { amount: quotient_spec(m.tax.amount, d) },
                },
            )
        },
        _ => None,
    }
}

/// The value that a record's net and gross amounts give: tax is gross minus
/// net; a missing or malformed amount is a structural error.
pub open spec fn from_json_spec(
    net_amount: Option<AmountSource>,
    gross_amount: Option<AmountSource>,
) -> Result<MoneyWithVAT, MoneyError> {
    match (net_amount, gross_amount) {
        (Some(n), Some(g)) => match (extract_spec(n), extract_spec(g)) {
            (Ok(net), Ok(gross)) => Ok(
                MoneyWithVAT {
                    net: Money { amount: net },
                    tax: Money { amount: add_spec(gross, neg_spec(net)) },
                },
            ),
            _ => Err(MoneyError::InvalidStructure),
        },
        _ => Err(MoneyError::InvalidStructure),
    }
}

/// The value that a record's net and tax fields give, where both read as
/// decimals.
pub open spec fn validate_spec(net: Option<AmountSource>, tax: Option<AmountSource>) -> Result<
    MoneyWithVAT,
    MoneyError,
> {
    match (net, tax) {
        (Some(n), Some(t)) => match (plain_decimal_spec(n), plain_decimal_spec(t)) {
            (Some(n), Some(t)) => Ok(
                MoneyWithVAT { net: Money { amount: n }, tax: Money { amount: t } },
            ),
            _ => Err(MoneyError::ValidationError),
        },
        _ => Err(MoneyError::ValidationError),
    }
}

/// Net equals net and tax equals tax, as numbers.
pub open spec fn same_parts(a: MoneyWithVAT, b: MoneyWithVAT) -> bool {
    same_value(a.net.amount, b.net.amount) && same_value(a.tax.amount, b.tax.amount)
}

pub open spec fn all_wf(s: Seq<MoneyWithVAT>) -> bool {
    forall|i: int| 0 <= i < s.len() ==> (#[trigger] s[i]).wf()
}

pub open spec fn all_present_wf(s: Seq<Option<MoneyWithVAT>>) -> bool {
    forall|i: int| 0 <= i < s.len() ==> (#[trigger] s[i] matches Some(m) ==> m.wf())
}

fn rate(percent: u128) -> (r: Dec)
    requires
        percent < 100,
    ensures
        r == rate_dec(percent),
        r.wf(),
{
    Dec { negative: false, mantissa: percent, scale: 2 }
}

impl MoneyWithVAT {
    pub open spec fn wf(self) -> bool {
        self.net.wf() && self.tax.wf()
    }

    /// Net and tax from two optional sources; an absent one is zero.
    pub fn new(net: Option<AmountSource>, tax: Option<AmountSource>) -> (r: Result<
        MoneyWithVAT,
        MoneyError,
    >)
        requires
            net matches Some(s) ==> s.wf(),
            tax matches Some(s) ==> s.wf(),
        ensures
            money_new_spec(net) matches Err(e) ==> r == Err::<MoneyWithVAT, MoneyError>(e),
            money_new_spec(net) matches Ok(n) ==> match money_new_spec(tax) {
                Ok(t) => r == Ok::<MoneyWithVAT, MoneyError>(MoneyWithVAT { net: n, tax: t }),
                Err(e) => r == Err::<MoneyWithVAT, MoneyError>(e),
            },
            r matches Ok(m) ==> m.wf(),
    {
        let net_result = Money::new(net);
        let tax_result = Money::new(tax);
        match (net_result, tax_result) {
            (Ok(net_money), Ok(tax_money)) => Ok(MoneyWithVAT { net: net_money, tax: tax_money }),
            (Err(err), _) => Err(err),
            (_, Err(err)) => Err(err),
        }
    }

    /// Net plus tax.
    pub fn gross(&self) -> (r: Money)
        requires
            self.wf(),
        ensures
            r.amount == gross_spec(*self),
            r.wf(),
    {
        Money { amount: decimal_add(self.net.amount, self.tax.amount) }
    }

    /// Tax over net; `+0` where the net is zero.
    pub fn tax_rate(&self) -> (r: Dec)
        requires
            self.wf(),
        ensures
            r == tax_rate_spec(*self),
            r.wf(),
    {
        if self.net.amount.mantissa == 0 {
            Dec::zero()
        } else {
            match decimal_div(self.tax.amount, self.net.amount) {
                Ok(d) => d,
                Err(_) => {
                    proof {
                        assert(false);
                    }
                    Dec::zero()
                },
            }
        }
    }

    /// The known value-added-tax rates.
    pub fn known_vat_rates() -> (r: Vec<Dec>)
        ensures
            r@ == known_rates(),
            forall|i: int| 0 <= i < r@.len() ==> (#[trigger] r@[i]).wf(),
    {
        let mut v: Vec<Dec> = Vec::new();
        v.push(rate(0));
        v.push(rate(5));
        v.push(rate(7));
        v.push(rate(10));
        v.push(rate(13));
        v.push(rate(16));
        v.push(rate(19));
        v.push(rate(20));
        v.push(rate(25));
        assert(v@ =~= known_rates());
        v
    }

    /// The domestic value-added-tax rates.
    pub fn german_vat_rates() -> (r: Vec<Dec>)
        ensures
            r@ == german_rates(),
    {
        let mut v: Vec<Dec> = Vec::new();
        v.push(rate(0));
        v.push(rate(5));
        v.push(rate(7));
        v.push(rate(16));
        v.push(rate(19));
        assert(v@ =~= german_rates());
        v
    }

    /// The tax rate for display only, snapped to a known rate where the tax
    /// lies within `0.05` of what that rate implies; never to be computed with.
    pub fn tax_rate_for_display(&self) -> (r: Dec)
        requires
            self.wf(),
        ensures
            r == display_rate_spec(*self),
    {
        let raw = self.tax_rate();
        let rates = Self::known_vat_rates();
        let mut i: usize = 0;
        while i < rates.len()
            invariant
                rates@ == known_rates(),
                raw == tax_rate_spec(*self),
                raw.wf(),
                i <= rates@.len(),
                forall|j: int| 0 <= j < i ==> !same_value(#[trigger] known_rates()[j], raw),
            decreases rates@.len() - i,
        {
            proof {
                assert(rates@[i as int].wf());
            }
            match rates[i].compare(&raw) {
                Ordering::Equal => {
                    return raw;
                },
                _ => {},
            }
            i = i + 1;
        }
        assert(!is_known_rate(raw));
        let tolerance = rate(5);
        let mut k: usize = 0;
        while k < rates.len()
            invariant
                self.wf(),
                rates@ == known_rates(),
                tolerance == rate_dec(5),
                tolerance.wf(),
                k <= rates@.len(),
                first_close_rate(*self, 0) == first_close_rate(*self, k as nat),
                !is_known_rate(raw),
                raw == tax_rate_spec(*self),
            decreases rates@.len() - k,
        {
            let candidate = rates[k];
            proof {
                assert(candidate.wf());
            }
            let implied = decimal_mult(candidate, self.net.amount);
            let gap = decimal_add(implied, decimal_neg(self.tax.amount)).abs();
            match gap.compare(&tolerance) {
                Ordering::Less => {
                    return candidate;
                },
                _ => {},
            }
            k = k + 1;
        }
        raw
    }

    /// Whether the gross is above zero.
    pub fn is_positive(&self) -> (r: bool)
        requires
            self.wf(),
        ensures
            r == less_value(Dec::signed_zero(false), gross_spec(*self)),
    {
        let g = self.gross().amount;
        proof {
            assert(pow10(0) == 1);
            assert(Dec::signed_zero(false).num() == 0);
            assert(0 * pow10(g.scale as nat) == 0);
            assert(g.num() * pow10(0) == g.num());
        }
        !g.negative && g.mantissa != 0
    }

    /// Whether the gross is below zero.
    pub fn is_negative(&self) -> (r: bool)
        requires
            self.wf(),
        ensures
            r == less_value(gross_spec(*self), Dec::signed_zero(false)),
    {
        let g = self.gross().amount;
        proof {
            assert(pow10(0) == 1);
            assert(Dec::signed_zero(false).num() == 0);
            assert(0 * pow10(g.scale as nat) == 0);
            assert(g.num() * pow10(0) == g.num());
        }
        g.negative && g.mantissa != 0
    }

    /// Whether the grosses, rounded to cents, are the same number.
    pub fn is_equal_up_to_cents(&self, other: &MoneyWithVAT) -> (r: bool)
        requires
            self.wf(),
            other.wf(),
        ensures
            r == same_value(
                round_spec(gross_spec(*self), 2, Midpoint::NearestEven),
                round_spec(gross_spec(*other), 2, Midpoint::NearestEven),
            ),
    {
        let a = self.gross().round(Some(2));
        let b = other.gross().round(Some(2));
        match a.amount.compare(&b.amount) {
            Ordering::Equal => true,
            _ => false,
        }
    }

    /// Whether this gross, rounded to cents, is below the other's.
    pub fn is_lower_up_to_cents(&self, other: &MoneyWithVAT) -> (r: bool)
        requires
            self.wf(),
            other.wf(),
        ensures
            r == less_value(
                round_spec(gross_spec(*self), 2, Midpoint::NearestEven),
                round_spec(gross_spec(*other), 2, Midpoint::NearestEven),
            ),
    {
        let a = self.gross().round(Some(2));
        let b = other.gross().round(Some(2));
        match a.amount.compare(&b.amount) {
            Ordering::Less => true,
            _ => false,
        }
    }

    /// Whether this gross, rounded to cents, is not above the other's.
    pub fn is_lower_or_equal_up_to_cents(&self, other: &MoneyWithVAT) -> (r: bool)
        requires
            self.wf(),
            other.wf(),
        ensures
            r == (same_value(
                round_spec(gross_spec(*self), 2, Midpoint::NearestEven),
                round_spec(gross_spec(*other), 2, Midpoint::NearestEven),
            ) || less_value(
                round_spec(gross_spec(*self), 2, Midpoint::NearestEven),
                round_spec(gross_spec(*other), 2, Midpoint::NearestEven),
            )),
    {
        self.is_equal_up_to_cents(other) || self.is_lower_up_to_cents(other)
    }

    /// Net rounded to cents, and the tax taken as the gross rounded to cents
    /// minus that net, so that the rounded parts add up to the rounded gross
    /// wherever that subtraction needs no rounding of its own.
    pub fn rounded_to_cents(&self) -> (r: MoneyWithVAT)
        requires
            self.wf(),
        ensures
            r == rounded_to_cents_spec(*self),
            r.wf(),
            cents_bounded(round_spec(gross_spec(*self), 2, Midpoint::NearestEven))
                && cents_bounded(r.net.amount) ==> sum_equals(
                r.net.amount,
                r.tax.amount,
                round_spec(gross_spec(*self), 2, Midpoint::NearestEven),
            ),
    {
        let rounded_net = self.net.round(Some(2)).amount;
        let rounded_gross = self.gross().round(Some(2)).amount;
        let tax = decimal_add(rounded_gross, decimal_neg(rounded_net));
        proof {
            if cents_bounded(rounded_gross) && cents_bounded(rounded_net) {
                lemma_cents_difference_fits(rounded_gross, rounded_net);
                lemma_residual_sum(rounded_net, rounded_gross, tax);
            }
        }
        MoneyWithVAT { net: Money { amount: rounded_net }, tax: Money { amount: tax } }
    }

    /// Net and tax each rounded half to even to twelve fractional digits.
    pub fn rounded_to_money_field_precision(&self) -> (r: MoneyWithVAT)
        requires
            self.wf(),
        ensures
            r.net.amount == round_spec(self.net.amount, MONEY_PRECISION, Midpoint::NearestEven),
            r.tax.amount == round_spec(self.tax.amount, MONEY_PRECISION, Midpoint::NearestEven),
            r.wf(),
    {
        MoneyWithVAT {
            net: self.net.round(Some(MONEY_PRECISION)),
            tax: self.tax.round(Some(MONEY_PRECISION)),
        }
    }

    /// Both parts negated; zeros become `+0`.
    pub fn neg(&self) -> (r: MoneyWithVAT)
        requires
            self.wf(),
        ensures
            r.net.amount == neg_spec(self.net.amount),
            r.tax.amount == neg_spec(self.tax.amount),
            r.wf(),
    {
        MoneyWithVAT { net: self.net.neg(), tax: self.tax.neg() }
    }

    /// Both parts with their signs cleared.
    pub fn abs(&self) -> (r: MoneyWithVAT)
        requires
            self.wf(),
        ensures
            r.net.amount == (Dec { negative: false, ..self.net.amount }),
            r.tax.amount == (Dec { negative: false, ..self.tax.amount }),
            r.wf(),
    {
        MoneyWithVAT { net: self.net.abs(), tax: self.tax.abs() }
    }

    /// Net plus net and tax plus tax.
    pub fn add(&self, other: &MoneyWithVAT) -> (r: MoneyWithVAT)
        requires
            self.wf(),
            other.wf(),
        ensures
            r.net.amount == add_spec(self.net.amount, other.net.amount),
            r.tax.amount == add_spec(self.tax.amount, other.tax.amount),
            r.wf(),
    {
        MoneyWithVAT {
            net: Money { amount: decimal_add(self.net.amount, other.net.amount) },
            tax: Money { amount: decimal_add(self.tax.amount, other.tax.amount) },
        }
    }

    /// Net minus net and tax minus tax.
    pub fn sub(&self, other: &MoneyWithVAT) -> (r: MoneyWithVAT)
        requires
            self.wf(),
            other.wf(),
        ensures
            r.net.amount == add_spec(self.net.amount, neg_spec(other.net.amount)),
            r.tax.amount == add_spec(self.tax.amount, neg_spec(other.tax.amount)),
            r.wf(),
    {
        MoneyWithVAT {
            net: Money { amount: decimal_add(self.net.amount, decimal_neg(other.net.amount)) },
            tax: Money { amount: decimal_add(self.tax.amount, decimal_neg(other.tax.amount)) },
        }
    }

    /// Adding a bare decimal: only a zero is accepted, added to both parts.
    pub fn add_scalar(&self, other: Dec) -> (r: Result<MoneyWithVAT, MoneyError>)
        requires
            self.wf(),
            other.wf(),
        ensures
            !other.is_zero() ==> r == Err::<MoneyWithVAT, MoneyError>(MoneyError::TypeMismatch),
            other.is_zero() ==> r == Ok::<MoneyWithVAT, MoneyError>(
                MoneyWithVAT {
                    net: Money { amount: add_spec(self.net.amount, other) },
                    tax: Money { amount: add_spec(self.tax.amount, other) },
                },
            ),
            r matches Ok(m) ==> m.wf(),
            r matches Ok(m) ==> same_parts(m, *self),
    {
        if other.mantissa != 0 {
            return Err(MoneyError::TypeMismatch);
        }
        Ok(
            MoneyWithVAT {
                net: Money { amount: decimal_add(self.net.amount, other) },
                tax: Money { amount: decimal_add(self.tax.amount, other) },
            },
        )
    }

    /// Subtracting a bare decimal: only a zero is accepted.
    pub fn sub_scalar(&self, other: Dec) -> (r: Result<MoneyWithVAT, MoneyError>)
        requires
            self.wf(),
            other.wf(),
        ensures
            !other.is_zero() ==> r == Err::<MoneyWithVAT, MoneyError>(MoneyError::TypeMismatch),
            other.is_zero() ==> r == Ok::<MoneyWithVAT, MoneyError>(
                MoneyWithVAT {
                    net: Money { amount: add_spec(self.net.amount, neg_spec(other)) },
                    tax: Money { amount: add_spec(self.tax.amount, neg_spec(other)) },
                },
            ),
            r matches Ok(m) ==> m.wf(),
            r matches Ok(m) ==> same_parts(m, *self),
    {
        if other.mantissa != 0 {
            return Err(MoneyError::TypeMismatch);
        }
        let negated = decimal_neg(other);
        Ok(
            MoneyWithVAT {
                net: Money { amount: decimal_add(self.net.amount, negated) },
                tax: Money { amount: decimal_add(self.tax.amount, negated) },
            },
        )
    }

    /// A bare decimal minus this value: only a zero is accepted.
    pub fn rsub_scalar(&self, other: Dec) -> (r: Result<MoneyWithVAT, MoneyError>)
        requires
            self.wf(),
            other.wf(),
        ensures
            !other.is_zero() ==> r == Err::<MoneyWithVAT, MoneyError>(MoneyError::TypeMismatch),
            other.is_zero() ==> r == Ok::<MoneyWithVAT, MoneyError>(
                MoneyWithVAT {
                    net: Money { amount: add_spec(neg_spec(self.net.amount), other) },
                    tax: Money { amount: add_spec(neg_spec(self.tax.amount), other) },
                },
            ),
            r matches Ok(m) ==> m.wf(),
    {
        self.neg().add_scalar(other)
    }

    /// Both parts times a decimal.
    pub fn mul_decimal(&self, factor: Dec) -> (r: MoneyWithVAT)
        requires
            self.wf(),
            factor.wf(),
        ensures
            r.net.amount == mult_spec(self.net.amount, factor),
            r.tax.amount == mult_spec(self.tax.amount, factor),
            r.wf(),
    {
        MoneyWithVAT {
            net: Money { amount: decimal_mult(self.net.amount, factor) },
            tax: Money { amount: decimal_mult(self.tax.amount, factor) },
        }
    }

    /// Scaled by a ratio: the net by the net ratio, the gross by the gross
    /// ratio, the tax being what is left of the scaled gross. The new net and
    /// tax add up to the scaled gross wherever that subtraction needs no
    /// rounding of its own.
    pub fn mul_ratio(&self, ratio: &MoneyWithVATRatio) -> (r: MoneyWithVAT)
        requires
            self.wf(),
            ratio.wf(),
        ensures
            r.net.amount == mult_spec(ratio.net_ratio, self.net.amount),
            r.tax.amount == add_spec(
                mult_spec(ratio.gross_ratio, gross_spec(*self)),
                neg_spec(r.net.amount),
            ),
            r.wf(),
            exact_sum_fits(
                mult_spec(ratio.gross_ratio, gross_spec(*self)).pair(),
                neg_spec(r.net.amount).pair(),
            ) ==> sum_equals(
                r.net.amount,
                r.tax.amount,
                mult_spec(ratio.gross_ratio, gross_spec(*self)),
            ),
    {
        let net_value = decimal_mult(ratio.net_ratio, self.net.amount);
        let scaled_gross = decimal_mult(ratio.gross_ratio, self.gross().amount);
        let tax = decimal_add(scaled_gross, decimal_neg(net_value));
        proof {
            if exact_sum_fits(scaled_gross.pair(), neg_spec(net_value).pair()) {
                lemma_residual_sum(net_value, scaled_gross, tax);
            }
        }
        MoneyWithVAT { net: Money { amount: net_value }, tax: Money { amount: tax } }
    }

    /// Both parts divided by a decimal; a zero divisor is an error.
    pub fn div_decimal(&self, divisor: Dec) -> (r: Result<MoneyWithVAT, MoneyError>)
        requires
            self.wf(),
            divisor.wf(),
        ensures
            divisor.is_zero() ==> r == Err::<MoneyWithVAT, MoneyError>(MoneyError::DivisionByZero),
            !divisor.is_zero() ==> r == Ok::<MoneyWithVAT, MoneyError>(
                MoneyWithVAT {
                    net: Money { amount: quotient_spec(self.net.amount, divisor) },
                    tax: Money { amount: quotient_spec(self.tax.amount, divisor) },
                },
            ),
            r matches Ok(m) ==> m.wf(),
    {
        if divisor.mantissa == 0 {
            return Err(MoneyError::DivisionByZero);
        }
        Ok(
            MoneyWithVAT {
                net: Money { amount: quotient(self.net.amount, divisor) },
                tax: Money { amount: quotient(self.tax.amount, divisor) },
            },
        )
    }

    /// A decimal divided by each part; a zero net or tax is an error.
    pub fn rdiv_decimal(&self, dividend: Dec) -> (r: Result<MoneyWithVAT, MoneyError>)
        requires
            self.wf(),
            dividend.wf(),
        ensures
            (self.net.amount.is_zero() || self.tax.amount.is_zero()) ==> r == Err::<
                MoneyWithVAT,
                MoneyError,
            >(MoneyError::DivisionByZero),
            !(self.net.amount.is_zero() || self.tax.amount.is_zero()) ==> r == Ok::<
                MoneyWithVAT,
                MoneyError,
            >(
                MoneyWithVAT {
                    net: Money { amount: quotient_spec(dividend, self.net.amount) },
                    tax: Money { amount: quotient_spec(dividend, self.tax.amount) },
                },
            ),
            r matches Ok(m) ==> m.wf(),
    {
        if self.net.amount.mantissa == 0 || self.tax.amount.mantissa == 0 {
            return Err(MoneyError::DivisionByZero);
        }
        Ok(
            MoneyWithVAT {
                net: Money { amount: quotient(dividend, self.net.amount) },
                tax: Money { amount: quotient(dividend, self.tax.amount) },
            },
        )
    }

    /// Whether the net or the tax is not zero.
    pub fn is_nonzero(&self) -> (r: bool)
        ensures
            r == (!self.net.amount.is_zero() || !self.tax.amount.is_zero()),
    {
        self.net.amount.mantissa != 0 || self.tax.amount.mantissa != 0
    }

    /// Whether net equals net and tax equals tax, as numbers.
    pub fn equals(&self, other: &MoneyWithVAT) -> (r: bool)
        requires
            self.wf(),
            other.wf(),
        ensures
            r == (same_value(self.net.amount, other.net.amount) && same_value(
                self.tax.amount,
                other.tax.amount,
            )),
    {
        self.net.equals(&other.net) && self.tax.equals(&other.tax)
    }

    /// Order by gross alone: different splits of one gross compare equal.
    pub fn compare(&self, other: &MoneyWithVAT) -> (r: Ordering)
        requires
            self.wf(),
            other.wf(),
        ensures
            (r == Ordering::Less) == less_value(gross_spec(*self), gross_spec(*other)),
            (r == Ordering::Equal) == same_value(gross_spec(*self), gross_spec(*other)),
            (r == Ordering::Greater) == less_value(gross_spec(*other), gross_spec(*self)),
    {
        self.gross().compare(&other.gross())
    }

    /// The largest net and the largest gross, each taken over all values on
    /// its own, as a net and the tax that completes that gross.
    pub fn max(values: &Vec<MoneyWithVAT>) -> (r: Result<MoneyWithVAT, MoneyError>)
        requires
            all_wf(values@),
        ensures
            values@.len() == 0 ==> r == Err::<MoneyWithVAT, MoneyError>(
                MoneyError::InsufficientArguments,
            ),
            values@.len() > 0 ==> r == Ok::<MoneyWithVAT, MoneyError>(
                MoneyWithVAT {
                    net: Money { amount: max_net_spec(values@, values@.len()) },
                    tax: Money {
                        amount: add_spec(
                            max_gross_spec(values@, values@.len()),
                            neg_spec(max_net_spec(values@, values@.len())),
                        ),
                    },
                },
            ),
            r matches Ok(m) ==> m.wf(),
    {
        if values.len() == 0 {
            return Err(MoneyError::InsufficientArguments);
        }
        proof {
            assert(values@[0].wf());
        }
        let mut max_net = values[0].net.amount;
        let mut max_gross = values[0].gross().amount;
        let mut i: usize = 1;
        while i < values.len()
            invariant
                all_wf(values@),
                1 <= i <= values@.len(),
                max_net == max_net_spec(values@, i as nat),
                max_gross == max_gross_spec(values@, i as nat),
                max_net.wf(),
                max_gross.wf(),
            decreases values@.len() - i,
        {
            let value = values[i];
            proof {
                assert(values@[i as int].wf());
            }
            max_net = max_dec(max_net, value.net.amount);
            max_gross = max_dec(max_gross, value.gross().amount);
            i = i + 1;
        }
        Ok(
            MoneyWithVAT {
                net: Money { amount: max_net },
                tax: Money { amount: decimal_add(max_gross, decimal_neg(max_net)) },
            },
        )
    }

    /// The ratio of the nets and of the grosses; a zero net or gross in the
    /// divisor is an error.
    pub fn ratio(dividend: &MoneyWithVAT, divisor: &MoneyWithVAT) -> (r: Result<
        MoneyWithVATRatio,
        MoneyError,
    >)
        requires
            dividend.wf(),
            divisor.wf(),
        ensures
            ratio_undefined(*divisor) ==> r == Err::<MoneyWithVATRatio, MoneyError>(
                MoneyError::DivisionByZero,
            ),
            !ratio_undefined(*divisor) ==> r == Ok::<MoneyWithVATRatio, MoneyError>(
                ratio_spec(*dividend, *divisor),
            ),
            r matches Ok(x) ==> x.wf(),
    {
        let divisor_gross = divisor.gross().amount;
        if divisor.net.amount.mantissa == 0 || divisor_gross.mantissa == 0 {
            return Err(MoneyError::DivisionByZero);
        }
        Ok(
            MoneyWithVATRatio {
                net_ratio: quotient(dividend.net.amount, divisor.net.amount),
                gross_ratio: quotient(dividend.gross().amount, divisor_gross),
            },
        )
    }

    /// The ratio of the two values rounded to cents, an absent one being
    /// zero; nothing where the rounded divisor's net or gross is zero.
    pub fn safe_ratio(dividend: Option<MoneyWithVAT>, divisor: Option<MoneyWithVAT>) -> (r: Option<
        MoneyWithVATRatio,
    >)
        requires
            dividend matches Some(m) ==> m.wf(),
            divisor matches Some(m) ==> m.wf(),
        ensures
            ratio_undefined(cents_or_zero(divisor)) ==> r is None,
            !ratio_undefined(cents_or_zero(divisor)) ==> r == Some(
                ratio_spec(cents_or_zero(dividend), cents_or_zero(divisor)),
            ),
    {
        let fixed_dividend = match dividend {
            Some(d) => d.rounded_to_cents(),
            None => Self::zero(),
        };
        let fixed_divisor = match divisor {
            Some(d) => d.rounded_to_cents(),
            None => Self::zero(),
        };
        match Self::ratio(&fixed_dividend, &fixed_divisor) {
            Ok(x) => Some(x),
            Err(_) => None,
        }
    }

    /// Net and tax each divided by the decimal; nothing where either operand
    /// is absent or the divisor is zero.
    pub fn safe_ratio_decimal(dividend: Option<MoneyWithVAT>, divisor: Option<Dec>) -> (r: Option<
        MoneyWithVAT,
    >)
        requires
            dividend matches Some(m) ==> m.wf(),
            divisor matches Some(d) ==> d.wf(),
        ensures
            r == safe_ratio_decimal_spec(dividend, divisor),
    {
        match (dividend, divisor) {
            (Some(m), Some(d)) => match m.div_decimal(d) {
                Ok(x) => Some(x),
                Err(_) => None,
            },
            _ => None,
        }
    }

    /// Net and tax each summed over the present values; nothing where no
    /// value is present, which tells "no data" from a zero sum.
    pub fn fast_sum_with_none(values: &Vec<Option<MoneyWithVAT>>) -> (r: Option<MoneyWithVAT>)
        requires
            all_present_wf(values@),
        ensures
            r is None <==> !any_present(values@),
            r matches Some(m) ==> m.net.amount == net_sum_spec(values@) && m.tax.amount
                == tax_sum_spec(values@) && m.wf(),
    {
        let mut net_sum = Dec::zero();
        let mut tax_sum = Dec::zero();
        let mut any_value = false;
        let mut i: usize = 0;
        while i < values.len()
            invariant
                all_present_wf(values@),
                i <= values@.len(),
                net_sum == net_sum_spec(values@.subrange(0, i as int)),
                tax_sum == tax_sum_spec(values@.subrange(0, i as int)),
                net_sum.wf(),
                tax_sum.wf(),
                any_value == any_present(values@.subrange(0, i as int)),
            decreases values@.len() - i,
        {
            let ghost before = values@.subrange(0, i as int);
            let ghost after = values@.subrange(0, i + 1);
            assert(after.drop_last() == before);
            if let Some(value) = &values[i] {
                net_sum = decimal_add(net_sum, value.net.amount);
                tax_sum = decimal_add(tax_sum, value.tax.amount);
                any_value = true;
                assert(after[i as int] is Some);
            } else {
                proof {
                    if any_present(after) {
                        let j = choose|j: int| 0 <= j < after.len() && #[trigger] after[j] is Some;
                        assert(j != i);
                        assert(before[j] is Some);
                    }
                }
            }
            proof {
                if any_present(before) {
                    let j = choose|j: int| 0 <= j < before.len() && #[trigger] before[j] is Some;
                    assert(after[j] is Some);
                }
            }
            i = i + 1;
        }
        assert(values@.subrange(0, values@.len() as int) == values@);
        if !any_value {
            None
        } else {
            Some(MoneyWithVAT { net: Money { amount: net_sum }, tax: Money { amount: tax_sum } })
        }
    }

    /// Net and tax each summed over the present values; zero where none is.
    pub fn fast_sum(values: &Vec<Option<MoneyWithVAT>>) -> (r: MoneyWithVAT)
        requires
            all_present_wf(values@),
        ensures
            !any_present(values@) ==> r == zero_vat(),
            any_present(values@) ==> r.net.amount == net_sum_spec(values@) && r.tax.amount
                == tax_sum_spec(values@),
            r.wf(),
    {
        match Self::fast_sum_with_none(values) {
            Some(value) => value,
            None => Self::zero(),
        }
    }

    /// Net and tax, each written with twelve fractional digits; each rounded
    /// part must stay below `10^19`.
    pub fn for_json(&self) -> (r: (String, String))
        requires
            self.wf(),
            fixed_text_fits(
                round_spec(self.net.amount, MONEY_PRECISION, Midpoint::NearestEven),
                MONEY_PRECISION as usize,
            ),
            fixed_text_fits(
                round_spec(self.tax.amount, MONEY_PRECISION, Midpoint::NearestEven),
                MONEY_PRECISION as usize,
            ),
        ensures
            r.0@ == fixed_point_text(
                round_spec(self.net.amount, MONEY_PRECISION, Midpoint::NearestEven),
                MONEY_PRECISION as usize,
            ),
            r.1@ == fixed_point_text(
                round_spec(self.tax.amount, MONEY_PRECISION, Midpoint::NearestEven),
                MONEY_PRECISION as usize,
            ),
    {
        (self.net.for_json(), self.tax.for_json())
    }

    /// A value from the net and gross amounts of a serialised record; the tax
    /// is derived, never read. A missing or malformed amount is an error.
    pub fn from_json(net_amount: Option<AmountSource>, gross_amount: Option<AmountSource>) -> (r:
        Result<MoneyWithVAT, MoneyError>)
        requires
            net_amount matches Some(s) ==> s.wf(),
            gross_amount matches Some(s) ==> s.wf(),
        ensures
            r == from_json_spec(net_amount, gross_amount),
            r matches Ok(m) ==> m.wf(),
    {
        let net = match net_amount {
            Some(source) => match decimal_extract(&source) {
                Ok(d) => d,
                Err(_) => return Err(MoneyError::InvalidStructure),
            },
            None => return Err(MoneyError::InvalidStructure),
        };
        let gross = match gross_amount {
            Some(source) => match decimal_extract(&source) {
                Ok(d) => d,
                Err(_) => return Err(MoneyError::InvalidStructure),
            },
            None => return Err(MoneyError::InvalidStructure),
        };
        Ok(
            MoneyWithVAT {
                net: Money { amount: net },
                tax: Money { amount: decimal_add(gross, decimal_neg(net)) },
            },
        )
    }

    /// A value from the net and tax fields of a record offered for
    /// validation; both must be there and read as decimals.
    pub fn validate(net: Option<AmountSource>, tax: Option<AmountSource>) -> (r: Result<
        MoneyWithVAT,
        MoneyError,
    >)
        requires
            net matches Some(s) ==> s.wf(),
            tax matches Some(s) ==> s.wf(),
        ensures
            r == validate_spec(net, tax),
            r matches Ok(m) ==> m.wf(),
    {
        let n = match net {
            Some(source) => plain_decimal(&source),
            None => None,
        };
        let t = match tax {
            Some(source) => plain_decimal(&source),
            None => None,
        };
        match (n, t) {
            (Some(n), Some(t)) => Ok(
                MoneyWithVAT { net: Money { amount: n }, tax: Money { amount: t } },
            ),
            _ => Err(MoneyError::ValidationError),
        }
    }

    /// Zero net and zero tax.
    pub fn zero() -> (r: MoneyWithVAT)
        ensures
            r == zero_vat(),
            r.wf(),
    {
        MoneyWithVAT { net: Money { amount: Dec::zero() }, tax: Money { amount: Dec::zero() } }
    }
}

impl Copyable for MoneyWithVAT {
    fn copy(&self) -> (r: MoneyWithVAT) {
        *self
    }
}

/// The quotient by a divisor that is not zero.
fn quotient(a: Dec, b: Dec) -> (r: Dec)
    requires
        a.wf(),
        b.wf(),
        !b.is_zero(),
    ensures
        r == quotient_spec(a, b),
        r.wf(),
{
    match decimal_div(a, b) {
        Ok(d) => d,
        Err(_) => {
            proof {
                assert(false);
            }
            a
        },
    }
}

/// `d` has at most two fractional digits and fewer than 2^95 cents in
/// magnitude.
pub open spec fn cents_bounded(d: Dec) -> bool {
    d.scale <= 2 && d.mantissa * pow10((2 - d.scale) as nat) < MANTISSA_LIMIT / 2
}

proof fn lemma_lifted_cents(d: Dec, s: nat)
    requires
        d.wf(),
        cents_bounded(d),
        d.scale <= s <= 2,
    ensures
        -(MANTISSA_LIMIT / 2) < lifted(d.pair(), s) < MANTISSA_LIMIT / 2,
{
    let x = pow10((s - d.scale) as nat) as int;
    let y = pow10((2 - d.scale) as nat) as int;
    lemma_pow10_monotone((s - d.scale) as nat, (2 - d.scale) as nat);
    lemma_pow10_positive((s - d.scale) as nat);
    lemma_mul_inequality(x, y, d.mantissa as int);
    assert(d.mantissa * x == x * d.mantissa) by {
        lemma_mul_is_commutative(d.mantissa as int, x);
    }
    assert(d.mantissa * y == y * d.mantissa) by {
        lemma_mul_is_commutative(d.mantissa as int, y);
    }
    assert(d.pair().0 == d.num());
    if d.negative {
        assert(lifted(d.pair(), s) == -(d.mantissa * x)) by {
            lemma_mul_unary_negation(d.mantissa as int, x);
        }
    }
    assert(d.mantissa * x >= 0) by {
        lemma_mul_nonnegative(d.mantissa as int, x);
    }
}

/// Subtracting two amounts of whole cents below 2^95 cents needs no rounding.
proof fn lemma_cents_difference_fits(g: Dec, n: Dec)
    requires
        g.wf(),
        n.wf(),
        cents_bounded(g),
        cents_bounded(n),
    ensures
        exact_sum_fits(g.pair(), neg_spec(n).pair()),
{
    let m = neg_spec(n);
    assert(cents_bounded(m)) by {
        if n.is_zero() {
            assert(0 * pow10(2) == 0);
        }
    }
    let s = max_scale_of(g.pair(), m.pair());
    lemma_lifted_cents(g, s);
    lemma_lifted_cents(m, s);
}

/// The gross of a value is, by its definition, the sum of its net and its
/// tax; so it is for every value that an operation returns.
pub proof fn lemma_gross_is_net_plus_tax(m: MoneyWithVAT)
    ensures
        gross_spec(m) == add_spec(m.net.amount, m.tax.amount),
{
}

} // verus!
