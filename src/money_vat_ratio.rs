//! A pair of ratios that scales a net/tax split: one for the net, one for
//! the gross.
use vstd::prelude::*;

use std::cmp::Ordering;

use crate::decimals::{
    decimal_extract, extract_spec, plain_decimal, plain_decimal_spec, raw_add, raw_add_spec, raw_mult, raw_mult_spec, raw_quotient,
    raw_quotient_spec, raw_sub, raw_sub_spec, same_value, AmountSource, Dec,
};
use crate::error::MoneyError;
use crate::outside::{decimal_text, plain_text};
use crate::traits::Copyable;

verus! {

/// Two independent, dimensionless ratios.
#[derive(Debug, Clone, Copy)]
pub struct MoneyWithVATRatio {
    pub net_ratio: Dec,
    pub gross_ratio: Dec,
}

/// The ratio that `MoneyWithVATRatio::new` builds.
pub open spec fn ratio_new_spec(net_ratio: AmountSource, gross_ratio: AmountSource) -> Result<
    MoneyWithVATRatio,
    MoneyError,
> {
    match (extract_spec(net_ratio), extract_spec(gross_ratio)) {
        (Ok(n), Ok(g)) => Ok(MoneyWithVATRatio { net_ratio: n, gross_ratio: g }),
        _ => Err(MoneyError::InvalidDecimal),
    }
}

/// The ratio that a record's two fields give, where both read as decimals.
pub open spec fn ratio_validate_spec(
    net_ratio: Option<AmountSource>,
    gross_ratio: Option<AmountSource>,
) -> Result<MoneyWithVATRatio, MoneyError> {
    match (net_ratio, gross_ratio) {
        (Some(n), Some(g)) => match (plain_decimal_spec(n), plain_decimal_spec(g)) {
            (Some(n), Some(g)) => Ok(MoneyWithVATRatio { net_ratio: n, gross_ratio: g }),
            _ => Err(MoneyError::ValidationError),
        },
        _ => Err(MoneyError::ValidationError),
    }
}

impl MoneyWithVATRatio {
    pub open spec fn wf(self) -> bool {
        self.net_ratio.wf() && self.gross_ratio.wf()
    }

    /// A ratio from two decimal sources; either one that is no decimal is an
    /// error.
    pub fn new(net_ratio: &AmountSource, gross_ratio: &AmountSource) -> (r: Result<
        MoneyWithVATRatio,
        MoneyError,
    >)
        requires
            net_ratio.wf(),
            gross_ratio.wf(),
        ensures
            r == ratio_new_spec(*net_ratio, *gross_ratio),
            r matches Ok(x) ==> x.wf(),
    {
        let n = match decimal_extract(net_ratio) {
            Ok(d) => d,
            Err(_) => return Err(MoneyError::InvalidDecimal),
        };
        let g = match decimal_extract(gross_ratio) {
            Ok(d) => d,
            Err(_) => return Err(MoneyError::InvalidDecimal),
        };
        Ok(MoneyWithVATRatio { net_ratio: n, gross_ratio: g })
    }

    /// A ratio from the two fields of a record offered for validation; both
    /// must be there and read as decimals.
    pub fn validate(net_ratio: Option<AmountSource>, gross_ratio: Option<AmountSource>) -> (r:
        Result<MoneyWithVATRatio, MoneyError>)
        requires
            net_ratio matches Some(s) ==> s.wf(),
            gross_ratio matches Some(s) ==> s.wf(),
        ensures
            r == ratio_validate_spec(net_ratio, gross_ratio),
            r matches Ok(x) ==> x.wf(),
    {
        let n = match net_ratio {
            Some(source) => plain_decimal(&source),
            None => None,
        };
        let g = match gross_ratio {
            Some(source) => plain_decimal(&source),
            None => None,
        };
        match (n, g) {
            (Some(n), Some(g)) => Ok(MoneyWithVATRatio { net_ratio: n, gross_ratio: g }),
            _ => Err(MoneyError::ValidationError),
        }
    }

    /// Both ratios zero.
    pub fn zero() -> (r: MoneyWithVATRatio)
        ensures
            r.net_ratio == Dec::signed_zero(false),
            r.gross_ratio == Dec::signed_zero(false),
            r.wf(),
    {
        MoneyWithVATRatio { net_ratio: Dec::zero(), gross_ratio: Dec::zero() }
    }

    pub fn get_net_ratio(&self) -> (r: Dec)
        ensures
            r == self.net_ratio,
    {
        self.net_ratio
    }

    pub fn get_gross_ratio(&self) -> (r: Dec)
        ensures
            r == self.gross_ratio,
    {
        self.gross_ratio
    }

    /// Both ratios subtracted from zero.
    pub fn neg(&self) -> (r: MoneyWithVATRatio)
        requires
            self.wf(),
        ensures
            r.net_ratio == raw_sub_spec(Dec::signed_zero(false), self.net_ratio),
            r.gross_ratio == raw_sub_spec(Dec::signed_zero(false), self.gross_ratio),
            r.wf(),
    {
        MoneyWithVATRatio {
            net_ratio: raw_sub(Dec::zero(), self.net_ratio),
            gross_ratio: raw_sub(Dec::zero(), self.gross_ratio),
        }
    }

    pub fn add(&self, other: &MoneyWithVATRatio) -> (r: MoneyWithVATRatio)
        requires
            self.wf(),
            other.wf(),
        ensures
            r.net_ratio == raw_add_spec(self.net_ratio, other.net_ratio),
            r.gross_ratio == raw_add_spec(self.gross_ratio, other.gross_ratio),
            r.wf(),
    {
        MoneyWithVATRatio {
            net_ratio: raw_add(self.net_ratio, other.net_ratio),
            gross_ratio: raw_add(self.gross_ratio, other.gross_ratio),
        }
    }

    pub fn sub(&self, other: &MoneyWithVATRatio) -> (r: MoneyWithVATRatio)
        requires
            self.wf(),
            other.wf(),
        ensures
            r.net_ratio == raw_sub_spec(self.net_ratio, other.net_ratio),
            r.gross_ratio == raw_sub_spec(self.gross_ratio, other.gross_ratio),
            r.wf(),
    {
        MoneyWithVATRatio {
            net_ratio: raw_sub(self.net_ratio, other.net_ratio),
            gross_ratio: raw_sub(self.gross_ratio, other.gross_ratio),
        }
    }

    /// Both ratios times a decimal.
    pub fn mul(&self, factor: Dec) -> (r: MoneyWithVATRatio)
        requires
            self.wf(),
            factor.wf(),
        ensures
            r.net_ratio == raw_mult_spec(self.net_ratio, factor),
            r.gross_ratio == raw_mult_spec(self.gross_ratio, factor),
            r.wf(),
    {
        MoneyWithVATRatio {
            net_ratio: raw_mult(self.net_ratio, factor),
            gross_ratio: raw_mult(self.gross_ratio, factor),
        }
    }

    /// Both ratios divided by a decimal; a zero divisor is an error.
    pub fn div(&self, divisor: Dec) -> (r: Result<MoneyWithVATRatio, MoneyError>)
        requires
            self.wf(),
            divisor.wf(),
        ensures
            divisor.is_zero() ==> r == Err::<MoneyWithVATRatio, MoneyError>(
                MoneyError::DivisionByZero,
            ),
            !divisor.is_zero() ==> r == Ok::<MoneyWithVATRatio, MoneyError>(
                MoneyWithVATRatio {
                    net_ratio: raw_quotient_spec(self.net_ratio, divisor),
                    gross_ratio: raw_quotient_spec(self.gross_ratio, divisor),
                },
            ),
            r matches Ok(x) ==> x.wf(),
    {
        if divisor.mantissa == 0 {
            return Err(MoneyError::DivisionByZero);
        }
        Ok(
            MoneyWithVATRatio {
                net_ratio: raw_quotient(self.net_ratio, divisor),
                gross_ratio: raw_quotient(self.gross_ratio, divisor),
            },
        )
    }

    /// Whether both ratios are the same numbers as the other's.
    pub fn equals(&self, other: &MoneyWithVATRatio) -> (r: bool)
        requires
            self.wf(),
            other.wf(),
        ensures
            r == (same_value(self.net_ratio, other.net_ratio) && same_value(
                self.gross_ratio,
                other.gross_ratio,
            )),
    {
        let net_equal = match self.net_ratio.compare(&other.net_ratio) {
            Ordering::Equal => true,
            _ => false,
        };
        let gross_equal = match self.gross_ratio.compare(&other.gross_ratio) {
            Ordering::Equal => true,
            _ => false,
        };
        net_equal && gross_equal
    }

    /// The two ratios written out in full: the net ratio, then the gross ratio.
    pub fn for_json(&self) -> (r: (String, String))
        requires
            self.wf(),
        ensures
            r.0@ == decimal_text(self.net_ratio),
            r.1@ == decimal_text(self.gross_ratio),
    {
        (plain_text(self.net_ratio), plain_text(self.gross_ratio))
    }
}

impl Copyable for MoneyWithVATRatio {
    fn copy(&self) -> (r: MoneyWithVATRatio) {
        *self
    }
}

} // verus!
