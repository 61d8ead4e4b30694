//! A single monetary amount.
use vstd::prelude::*;

use std::cmp::Ordering;

use crate::decimals::{
    add_spec, decimal_add, decimal_div, decimal_extract, decimal_mult, decimal_neg,
    decimal_round, decimal_round_with, div_spec, extract_spec, flip, flip_sign, less_value,
    mult_spec, neg_spec, plain_decimal, plain_decimal_spec, round_spec, same_value, AmountSource,
    Dec, Midpoint,
};
use crate::error::MoneyError;
use crate::outside::{fixed_point_text, fixed_text, fixed_text_fits, MAX_SCALE};
use crate::traits::Copyable;

verus! {

/// The number of fractional digits that amounts are written with.
pub const MONEY_PRECISION: i32 = 12;

/// An amount of money: one decimal, with no currency.
#[derive(Debug, Clone, Copy)]
pub struct Money {
    pub amount: Dec,
}

/// The scale that an optional number of digits stands for: none is zero.
pub open spec fn digits_or_zero(n: Option<i32>) -> i32 {
    match n {
        Some(k) => k,
        None => 0,
    }
}

/// What `Money::new` builds from an optional source.
pub open spec fn money_new_spec(source: Option<AmountSource>) -> Result<Money, MoneyError> {
    match source {
        None => Ok(Money { amount: Dec::signed_zero(false) }),
        Some(AmountSource::Money(m)) => Ok(m),
        Some(s) => match extract_spec(s) {
            Ok(d) => Ok(Money { amount: d }),
            Err(_) => Err(MoneyError::InvalidAmount),
        },
    }
}

/// A decimal result as an amount.
pub open spec fn as_money(r: Result<Dec, MoneyError>) -> Result<Money, MoneyError> {
    match r {
        Ok(d) => Ok(Money { amount: d }),
        Err(e) => Err(e),
    }
}

/// The running sum of the present amounts of `s`, starting from the first
/// of them, with the sign rules of decimal addition; none where no amount is
/// present.
pub open spec fn present_sum(s: Seq<Option<Money>>) -> Option<Dec>
    decreases s.len(),
{
    if s.len() == 0 {
        None
    } else {
        let rest = present_sum(s.drop_last());
        match s.last() {
            Some(m) => match rest {
                Some(acc) => Some(add_spec(acc, m.amount)),
                None => Some(m.amount),
            },
            None => rest,
        }
    }
}

/// The sum of the present amounts; `+0` where there is none.
pub open spec fn sum_spec(s: Seq<Option<Money>>) -> Dec {
    match present_sum(s) {
        Some(d) => d,
        None => Dec::signed_zero(false),
    }
}

/// Every present amount of `s` is `-0`.
pub open spec fn all_negative_zeros(s: Seq<Option<Money>>) -> bool {
    forall|i: int|
        0 <= i < s.len() ==> (#[trigger] s[i] matches Some(m) ==> m.amount.is_zero()
            && m.amount.negative)
}

impl Money {
    pub open spec fn wf(self) -> bool {
        self.amount.wf()
    }

    /// An amount from another amount, a whole number, a written decimal or a
    /// decimal; zero where there is none.
    pub fn new(amount: Option<AmountSource>) -> (r: Result<Money, MoneyError>)
        requires
            amount matches Some(s) ==> s.wf(),
        ensures
            r == money_new_spec(amount),
            r matches Ok(m) ==> m.wf(),
    {
        match amount {
            None => Ok(Money { amount: Dec::zero() }),
            Some(AmountSource::Money(m)) => Ok(m),
            Some(source) => match decimal_extract(&source) {
                Ok(d) => Ok(Money { amount: d }),
                Err(_) => Err(MoneyError::InvalidAmount),
            },
        }
    }

    /// An amount from a value offered for validation: an amount, or anything
    /// that reads as a decimal.
    pub fn validate(value: &AmountSource) -> (r: Result<Money, MoneyError>)
        requires
            value.wf(),
        ensures
            *value matches AmountSource::Money(m) ==> r == Ok::<Money, MoneyError>(m),
            !(value is Money) ==> r == match plain_decimal_spec(*value) {
                Some(d) => Ok::<Money, MoneyError>(Money { amount: d }),
                None => Err(MoneyError::ValidationError),
            },
            r matches Ok(m) ==> m.wf(),
    {
        if let AmountSource::Money(m) = value {
            return Ok(*m);
        }
        match plain_decimal(value) {
            Some(d) => Ok(Money { amount: d }),
            None => Err(MoneyError::ValidationError),
        }
    }

    /// Rounded to `n` fractional digits (zero if none), half to even; a
    /// negative `n` rounds to tens, hundreds and so on.
    pub fn round(&self, n: Option<i32>) -> (r: Money)
        requires
            self.wf(),
            digits_or_zero(n) >= -(MAX_SCALE as i32),
        ensures
            r.amount == round_spec(self.amount, digits_or_zero(n), Midpoint::NearestEven),
            r.wf(),
    {
        let digits: i32 = match n {
            Some(k) => k,
            None => 0,
        };
        Money { amount: decimal_round(self.amount, digits) }
    }

    /// Rounded to `n` fractional digits (zero if none), half away from zero.
    pub fn round_up(&self, n: Option<i32>) -> (r: Money)
        requires
            self.wf(),
            digits_or_zero(n) >= -(MAX_SCALE as i32),
        ensures
            r.amount == round_spec(self.amount, digits_or_zero(n), Midpoint::AwayFromZero),
            r.wf(),
    {
        let digits: i32 = match n {
            Some(k) => k,
            None => 0,
        };
        Money { amount: decimal_round_with(self.amount, digits, Midpoint::AwayFromZero) }
    }

    /// The negated amount; a zero becomes `+0`.
    pub fn neg(&self) -> (r: Money)
        requires
            self.wf(),
        ensures
            r.amount == neg_spec(self.amount),
            r.wf(),
    {
        Money { amount: decimal_neg(self.amount) }
    }

    /// The amount with its sign cleared.
    pub fn abs(&self) -> (r: Money)
        requires
            self.wf(),
        ensures
            r.amount == (Dec { negative: false, ..self.amount }),
            r.wf(),
    {
        Money { amount: self.amount.abs() }
    }

    pub fn add(&self, other: &Money) -> (r: Money)
        requires
            self.wf(),
            other.wf(),
        ensures
            r.amount == add_spec(self.amount, other.amount),
            r.wf(),
    {
        Money { amount: decimal_add(self.amount, other.amount) }
    }

    pub fn add_decimal(&self, other: Dec) -> (r: Money)
        requires
            self.wf(),
            other.wf(),
        ensures
            r.amount == add_spec(self.amount, other),
            r.wf(),
    {
        Money { amount: decimal_add(self.amount, other) }
    }

    /// The difference: the sum with the other operand's sign turned over, so
    /// that `-0 - 0` is `-0`.
    pub fn sub(&self, other: &Money) -> (r: Money)
        requires
            self.wf(),
            other.wf(),
        ensures
            r.amount == add_spec(self.amount, flip(other.amount)),
            r.wf(),
    {
        Money { amount: decimal_add(self.amount, flip_sign(other.amount)) }
    }

    pub fn sub_decimal(&self, other: Dec) -> (r: Money)
        requires
            self.wf(),
            other.wf(),
        ensures
            r.amount == add_spec(self.amount, flip(other)),
            r.wf(),
    {
        Money { amount: decimal_add(self.amount, flip_sign(other)) }
    }

    /// A decimal minus this amount.
    pub fn rsub_decimal(&self, other: Dec) -> (r: Money)
        requires
            self.wf(),
            other.wf(),
        ensures
            r.amount == add_spec(neg_spec(self.amount), other),
            r.wf(),
    {
        self.neg().add_decimal(other)
    }

    pub fn mul(&self, factor: Dec) -> (r: Money)
        requires
            self.wf(),
            factor.wf(),
        ensures
            r.amount == mult_spec(self.amount, factor),
            r.wf(),
    {
        Money { amount: decimal_mult(self.amount, factor) }
    }

    /// The amount divided by a decimal; a zero divisor is an error.
    pub fn div(&self, divisor: Dec) -> (r: Result<Money, MoneyError>)
        requires
            self.wf(),
            divisor.wf(),
        ensures
            divisor.is_zero() ==> r == Err::<Money, MoneyError>(MoneyError::DivisionByZero),
            r == as_money(div_spec(self.amount, divisor)),
            r matches Ok(m) ==> m.wf(),
    {
        match decimal_div(self.amount, divisor) {
            Ok(d) => Ok(Money { amount: d }),
            Err(e) => Err(e),
        }
    }

    /// The ratio of two amounts, a bare decimal; a zero divisor is an error.
    pub fn div_money(&self, divisor: &Money) -> (r: Result<Dec, MoneyError>)
        requires
            self.wf(),
            divisor.wf(),
        ensures
            r == div_spec(self.amount, divisor.amount),
            r matches Ok(d) ==> d.wf(),
    {
        decimal_div(self.amount, divisor.amount)
    }

    /// A decimal divided by this amount; a zero amount is an error.
    pub fn rdiv_decimal(&self, dividend: Dec) -> (r: Result<Money, MoneyError>)
        requires
            self.wf(),
            dividend.wf(),
        ensures
            self.amount.is_zero() ==> r == Err::<Money, MoneyError>(MoneyError::DivisionByZero),
            r == as_money(div_spec(dividend, self.amount)),
            r matches Ok(m) ==> m.wf(),
    {
        match decimal_div(dividend, self.amount) {
            Ok(d) => Ok(Money { amount: d }),
            Err(e) => Err(e),
        }
    }

    /// Whether the amount is not zero.
    pub fn is_nonzero(&self) -> (r: bool)
        ensures
            r == !self.amount.is_zero(),
    {
        self.amount.mantissa != 0
    }

    /// Numerical order of the amounts; the two zeros are equal.
    pub fn compare(&self, other: &Money) -> (r: Ordering)
        requires
            self.wf(),
            other.wf(),
        ensures
            (r == Ordering::Less) == less_value(self.amount, other.amount),
            (r == Ordering::Equal) == same_value(self.amount, other.amount),
            (r == Ordering::Greater) == less_value(other.amount, self.amount),
    {
        self.amount.compare(&other.amount)
    }

    /// Numerical order of the amount and a bare decimal.
    pub fn compare_decimal(&self, other: Dec) -> (r: Ordering)
        requires
            self.wf(),
            other.wf(),
        ensures
            (r == Ordering::Less) == less_value(self.amount, other),
            (r == Ordering::Equal) == same_value(self.amount, other),
            (r == Ordering::Greater) == less_value(other, self.amount),
    {
        self.amount.compare(&other)
    }

    /// Whether the two amounts are the same number.
    pub fn equals(&self, other: &Money) -> (r: bool)
        requires
            self.wf(),
            other.wf(),
        ensures
            r == same_value(self.amount, other.amount),
    {
        match self.amount.compare(&other.amount) {
            Ordering::Equal => true,
            _ => false,
        }
    }

    /// The amount rounded half to even to twelve fractional digits, written
    /// out with exactly twelve; the rounded amount must stay below `10^19`.
    pub fn for_json(&self) -> (r: String)
        requires
            self.wf(),
            fixed_text_fits(
                round_spec(self.amount, MONEY_PRECISION, Midpoint::NearestEven),
                MONEY_PRECISION as usize,
            ),
        ensures
            r@ == fixed_point_text(
                round_spec(self.amount, MONEY_PRECISION, Midpoint::NearestEven),
                MONEY_PRECISION as usize,
            ),
    {
        let rounded = self.round(Some(MONEY_PRECISION));
        fixed_text(rounded.amount, MONEY_PRECISION as usize)
    }
}

impl Copyable for Money {
    fn copy(&self) -> (r: Money) {
        *self
    }
}

/// Sums the present amounts, skipping the absent ones; nothing sums to `+0`,
/// and negative zeros alone sum to `-0`.
pub fn sum_(elems: &Vec<Option<Money>>) -> (r: Money)
    requires
        forall|i: int| 0 <= i < elems@.len() ==> (#[trigger] elems@[i] matches Some(m) ==> m.wf()),
    ensures
        r.amount == sum_spec(elems@),
        r.wf(),
        (forall|i: int| 0 <= i < elems@.len() ==> #[trigger] elems@[i] is None) ==> r.amount
            == Dec::signed_zero(false),
        (exists|i: int| 0 <= i < elems@.len() && #[trigger] elems@[i] is Some)
            && all_negative_zeros(elems@) ==> r.amount.is_zero() && r.amount.negative,
{
    let mut total: Option<Dec> = None;
    let mut i: usize = 0;
    while i < elems.len()
        invariant
            i <= elems@.len(),
            forall|j: int|
                0 <= j < elems@.len() ==> (#[trigger] elems@[j] matches Some(m) ==> m.wf()),
            total == present_sum(elems@.subrange(0, i as int)),
            total matches Some(d) ==> d.wf(),
        decreases elems@.len() - i,
    {
        let ghost before = elems@.subrange(0, i as int);
        if let Some(value) = &elems[i] {
            total = match total {
                Some(acc) => Some(decimal_add(acc, value.amount)),
                None => Some(value.amount),
            };
        }
        assert(elems@.subrange(0, i + 1).drop_last() == before);
        i = i + 1;
    }
    assert(elems@.subrange(0, elems@.len() as int) == elems@);
    proof {
        lemma_sum_of_absent(elems@);
        lemma_sum_of_negative_zeros(elems@);
    }
    match total {
        Some(amount) => Money { amount },
        None => Money { amount: Dec::zero() },
    }
}

/// A sequence with no amount in it sums to `+0`.
pub proof fn lemma_sum_of_absent(s: Seq<Option<Money>>)
    ensures
        (forall|i: int| 0 <= i < s.len() ==> #[trigger] s[i] is None) ==> present_sum(s) is None
            && sum_spec(s) == Dec::signed_zero(false),
    decreases s.len(),
{
    if s.len() > 0 && (forall|i: int| 0 <= i < s.len() ==> #[trigger] s[i] is None) {
        let p = s.drop_last();
        assert forall|i: int| 0 <= i < p.len() implies #[trigger] p[i] is None by {
            assert(s[i] is None);
        }
        lemma_sum_of_absent(p);
        assert(s[s.len() - 1] is None);
    }
}

/// Summing one or more negative zeros, and nothing else, gives `-0`.
pub proof fn lemma_sum_of_negative_zeros(s: Seq<Option<Money>>)
    ensures
        all_negative_zeros(s) ==> (present_sum(s) matches Some(d) ==> d.is_zero() && d.negative),
        all_negative_zeros(s) && (exists|i: int| 0 <= i < s.len() && #[trigger] s[i] is Some)
            ==> sum_spec(s).is_zero() && sum_spec(s).negative,
    decreases s.len(),
{
    if s.len() > 0 && all_negative_zeros(s) {
        let p = s.drop_last();
        assert(all_negative_zeros(p)) by {
            assert forall|i: int| 0 <= i < p.len() implies (#[trigger] p[i] matches Some(m)
                ==> m.amount.is_zero() && m.amount.negative) by {
                assert(p[i] == s[i]);
            }
        }
        lemma_sum_of_negative_zeros(p);
        assert(s.last() == s[s.len() - 1]);
        if exists|i: int| 0 <= i < s.len() && #[trigger] s[i] is Some {
            let i = choose|i: int| 0 <= i < s.len() && #[trigger] s[i] is Some;
            if i < s.len() - 1 {
                assert(p[i] is Some);
            }
            if present_sum(s) is None {
                assert(s.last() is None);
                assert(present_sum(p) is None);
                assert(p[i] == s[i]);
            }
        }
    }
}

} // verus!
