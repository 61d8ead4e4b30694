use alasco_money::decimals::{
    decimal_add, decimal_div, decimal_extract, decimal_mult, decimal_neg, decimal_round,
    decimal_round_with,
};
use alasco_money::{AmountSource, Dec, Midpoint, Money, MoneyError};
use std::cmp::Ordering;

fn dec(text: &str) -> Dec {
    decimal_extract(&AmountSource::Text(text.to_string())).unwrap()
}

fn neg_zero() -> Dec {
    Dec::from_parts(true, 0, 0).unwrap()
}

fn same(a: Dec, b: Dec) -> bool {
    a.compare(&b) == Ordering::Equal
}

#[test]
fn negating_zero_gives_positive_zero() {
    assert!(!decimal_neg(neg_zero()).negative);
    assert!(!decimal_neg(Dec::zero()).negative);
    assert!(!decimal_neg(decimal_neg(neg_zero())).negative);
    assert!(!decimal_neg(decimal_neg(Dec::zero())).negative);
}

#[test]
fn double_negation_keeps_nonzero_sign() {
    let x = dec("-3.25");
    let twice = decimal_neg(decimal_neg(x));
    assert!(twice.negative);
    assert_eq!(twice, x);
    let y = dec("7");
    assert!(!decimal_neg(decimal_neg(y)).negative);
    assert!(decimal_neg(y).negative);
}

#[test]
fn adding_signed_zeros() {
    assert!(decimal_add(neg_zero(), neg_zero()).negative);
    assert!(!decimal_add(neg_zero(), Dec::zero()).negative);
    assert!(!decimal_add(Dec::zero(), neg_zero()).negative);
    assert!(!decimal_add(Dec::zero(), Dec::zero()).negative);
}

#[test]
fn adding_nonzero_values() {
    assert!(same(decimal_add(dec("1.25"), dec("2.5")), dec("3.75")));
    assert!(same(decimal_add(dec("-1.25"), dec("1.25")), Dec::zero()));
}

#[test]
fn multiplying_by_signed_zero() {
    assert!(decimal_mult(neg_zero(), dec("5")).negative);
    assert!(!decimal_mult(neg_zero(), dec("-5")).negative);
    assert!(!decimal_mult(neg_zero(), neg_zero()).negative);
    assert!(decimal_mult(neg_zero(), Dec::zero()).negative);
    assert!(decimal_mult(dec("3"), neg_zero()).negative);
    assert_eq!(decimal_mult(neg_zero(), dec("5")).mantissa, 0);
}

#[test]
fn multiplying_nonzero_values() {
    assert!(same(decimal_mult(dec("1.5"), dec("-2")), dec("-3")));
}

#[test]
fn dividing_by_zero_fails() {
    assert_eq!(decimal_div(dec("1"), Dec::zero()), Err(MoneyError::DivisionByZero));
    assert_eq!(decimal_div(Dec::zero(), Dec::zero()), Err(MoneyError::DivisionByZero));
    assert_eq!(decimal_div(dec("-4.2"), neg_zero()), Err(MoneyError::DivisionByZero));
}

#[test]
fn dividing_zero_keeps_xor_sign() {
    assert!(decimal_div(neg_zero(), dec("2")).unwrap().negative);
    assert!(!decimal_div(neg_zero(), dec("-2")).unwrap().negative);
    assert!(decimal_div(Dec::zero(), dec("-2")).unwrap().negative);
}

#[test]
fn dividing_nonzero_values() {
    assert!(same(decimal_div(dec("10"), dec("4")).unwrap(), dec("2.5")));
    let third = decimal_div(dec("1"), dec("3")).unwrap();
    assert_eq!(third.scale, 28);
    assert_eq!(third.mantissa, 3333333333333333333333333333);
}

#[test]
fn round_half_to_even() {
    assert!(same(decimal_round(dec("2.5"), 0), dec("2")));
    assert!(same(decimal_round(dec("3.5"), 0), dec("4")));
    assert!(same(decimal_round(dec("2.675"), 2), dec("2.68")));
    assert!(same(decimal_round(dec("2.665"), 2), dec("2.66")));
    assert!(same(decimal_round(dec("-2.665"), 2), dec("-2.66")));
    assert_eq!(decimal_round(dec("1.5"), 3), dec("1.5"));
}

#[test]
fn round_half_away_from_zero() {
    assert!(same(decimal_round_with(dec("2.5"), 0, Midpoint::AwayFromZero), dec("3")));
    assert!(same(decimal_round_with(dec("-2.665"), 2, Midpoint::AwayFromZero), dec("-2.67")));
}

#[test]
fn round_is_idempotent() {
    for text in ["2.675", "-0.125", "1234.5678", "0.005"] {
        for scale in [0, 1, 2, 5] {
            let once = decimal_round(dec(text), scale);
            assert_eq!(decimal_round(once, scale), once);
        }
    }
    let once = decimal_round(dec("1250"), -2);
    assert!(same(decimal_round(once, -2), once));
}

#[test]
fn round_to_negative_scale() {
    assert!(same(decimal_round(dec("1250"), -2), dec("1300")));
    assert!(same(decimal_round(dec("1350"), -2), dec("1400")));
    assert!(same(decimal_round(dec("1249"), -2), dec("1200")));
    assert!(same(decimal_round(dec("-1250"), -2), dec("-1300")));
    assert!(same(decimal_round(dec("15"), -1), dec("20")));
}

#[test]
fn round_keeps_sign_of_zero() {
    assert!(decimal_round(neg_zero(), 2).negative);
    let small = dec("-0.000");
    assert!(decimal_round(small, 1).negative);
}

#[test]
fn text_with_minus_zero_is_negative_zero() {
    let d = dec("-0");
    assert!(d.negative);
    assert_eq!(d.mantissa, 0);
    let e = dec("-0.00");
    assert!(e.negative);
}

#[test]
fn text_parses_to_mantissa_and_scale() {
    let d = dec("12.50");
    assert_eq!((d.negative, d.mantissa, d.scale), (false, 1250, 2));
    let e = dec("-7.125");
    assert_eq!((e.negative, e.mantissa, e.scale), (true, 7125, 3));
}

#[test]
fn zero_with_exponent_is_zero() {
    let d = dec("0E-50");
    assert_eq!(d.mantissa, 0);
    assert!(!d.negative);
    let e = dec("0.00e+3");
    assert_eq!(e.mantissa, 0);
    let f = dec("0e+99999999999999999999");
    assert_eq!((f.negative, f.mantissa, f.scale), (false, 0, 0));
    assert_eq!(
        decimal_extract(&AmountSource::Text("1e+99999999999999999999".to_string())),
        Err(MoneyError::InvalidDecimal)
    );
}

#[test]
fn malformed_text_is_no_decimal() {
    assert_eq!(
        decimal_extract(&AmountSource::Text("twelve".to_string())),
        Err(MoneyError::InvalidDecimal)
    );
    assert_eq!(
        decimal_extract(&AmountSource::Money(Money { amount: Dec::zero() })),
        Err(MoneyError::InvalidDecimal)
    );
}

#[test]
fn integers_and_decimals_are_taken_as_they_are() {
    let d = decimal_extract(&AmountSource::Integer(-42)).unwrap();
    assert_eq!((d.negative, d.mantissa, d.scale), (true, 42, 0));
    let e = decimal_extract(&AmountSource::Decimal(neg_zero())).unwrap();
    assert!(e.negative);
}

#[test]
fn comparing_values_across_scales() {
    assert_eq!(dec("1.50").compare(&dec("1.5")), Ordering::Equal);
    assert_eq!(dec("1.49").compare(&dec("1.5")), Ordering::Less);
    assert_eq!(dec("-2").compare(&dec("1")), Ordering::Less);
    assert_eq!(neg_zero().compare(&Dec::zero()), Ordering::Equal);
}

#[test]
fn parts_out_of_range_are_refused() {
    assert_eq!(Dec::from_parts(false, 1, 29), Err(MoneyError::InvalidDecimal));
    assert_eq!(Dec::from_parts(false, 1u128 << 96, 0), Err(MoneyError::InvalidDecimal));
    assert_eq!(Dec::new(-15, 1), Dec::from_parts(true, 15, 1).unwrap());
}
