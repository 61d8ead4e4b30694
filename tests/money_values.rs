use alasco_money::decimals::decimal_extract;
use alasco_money::{
    sum_, AmountSource, Copyable, Dec, Money, MoneyError, MoneyWithVAT, MoneyWithVATRatio,
};
use std::cmp::Ordering;

fn dec(text: &str) -> Dec {
    decimal_extract(&AmountSource::Text(text.to_string())).unwrap()
}

fn money(text: &str) -> Money {
    Money::new(Some(AmountSource::Text(text.to_string()))).unwrap()
}

fn vat(net: &str, tax: &str) -> MoneyWithVAT {
    MoneyWithVAT::new(
        Some(AmountSource::Text(net.to_string())),
        Some(AmountSource::Text(tax.to_string())),
    )
    .unwrap()
}

fn same(a: Dec, b: Dec) -> bool {
    a.compare(&b) == Ordering::Equal
}

#[test]
fn money_from_sources() {
    assert!(same(Money::new(None).unwrap().amount, Dec::zero()));
    assert!(same(money("12.34").amount, dec("12.34")));
    let copied = Money::new(Some(AmountSource::Money(money("3")))).unwrap();
    assert!(same(copied.amount, dec("3")));
    assert!(Money::new(Some(AmountSource::Text("-0".to_string()))).unwrap().amount.negative);
    assert!(same(Money::new(Some(AmountSource::Integer(7))).unwrap().amount, dec("7")));
}

#[test]
fn money_from_bad_text_is_invalid_amount() {
    assert_eq!(
        Money::new(Some(AmountSource::Text("abc".to_string()))).unwrap_err(),
        MoneyError::InvalidAmount
    );
}

#[test]
fn money_round_and_round_up() {
    assert!(same(money("2.5").round(None).amount, dec("2")));
    assert!(same(money("2.5").round_up(None).amount, dec("3")));
    assert!(same(money("1.005").round(Some(2)).amount, dec("1.00")));
    assert!(same(money("1.005").round_up(Some(2)).amount, dec("1.01")));
    assert!(same(money("1250").round(Some(-2)).amount, dec("1300")));
}

#[test]
fn money_arithmetic() {
    let a = money("10.50");
    let b = money("0.25");
    assert!(same(a.add(&b).amount, dec("10.75")));
    assert!(same(a.sub(&b).amount, dec("10.25")));
    assert!(same(a.add_decimal(dec("1")).amount, dec("11.50")));
    assert!(same(a.sub_decimal(dec("1")).amount, dec("9.50")));
    assert!(same(a.rsub_decimal(dec("1")).amount, dec("-9.50")));
    assert!(same(a.mul(dec("2")).amount, dec("21")));
    assert!(same(a.div(dec("2")).unwrap().amount, dec("5.25")));
    assert!(same(a.div_money(&b).unwrap(), dec("42")));
    assert!(same(b.rdiv_decimal(dec("1")).unwrap().amount, dec("4")));
    assert!(same(a.neg().amount, dec("-10.50")));
    assert!(same(a.neg().abs().amount, dec("10.50")));
}

#[test]
fn money_sign_rules() {
    let minus_zero = money("-0");
    let zero = money("0");
    assert!(minus_zero.sub(&zero).amount.negative);
    assert!(!zero.sub(&zero).amount.negative);
    assert!(!minus_zero.neg().amount.negative);
    assert!(minus_zero.equals(&zero));
}

#[test]
fn money_division_by_zero() {
    assert_eq!(money("3").div(Dec::zero()).unwrap_err(), MoneyError::DivisionByZero);
    assert_eq!(money("3").div_money(&money("0")).unwrap_err(), MoneyError::DivisionByZero);
    assert_eq!(money("0").rdiv_decimal(dec("2")).unwrap_err(), MoneyError::DivisionByZero);
}

#[test]
fn money_order_and_truth() {
    assert_eq!(money("1.0").compare(&money("1")), Ordering::Equal);
    assert_eq!(money("-1").compare(&money("1")), Ordering::Less);
    assert!(money("0.01").is_nonzero());
    assert!(!money("-0").is_nonzero());
    let m = money("4.2");
    assert!(m.copy().equals(&m));
}

#[test]
fn money_for_json_has_twelve_digits() {
    assert_eq!(money("1.5").for_json(), "1.500000000000");
    assert_eq!(money("-2").for_json(), "-2.000000000000");
    assert_eq!(money("0.1234567890125").for_json(), "0.123456789012");
}

#[test]
fn sum_of_nothing_is_zero() {
    let empty: Vec<Option<Money>> = Vec::new();
    let total = sum_(&empty);
    assert!(same(total.amount, Dec::zero()));
    assert!(!total.amount.negative);
    let absent = sum_(&vec![None, None]);
    assert!(same(absent.amount, Dec::zero()));
}

#[test]
fn sum_skips_absent_values() {
    let total = sum_(&vec![Some(money("1.5")), None, Some(money("2.25"))]);
    assert!(same(total.amount, dec("3.75")));
}

#[test]
fn sum_of_negative_zeros_is_negative_zero() {
    let total = sum_(&vec![Some(money("-0")), None, Some(money("-0"))]);
    assert_eq!(total.amount.mantissa, 0);
    assert!(total.amount.negative);
    let one = sum_(&vec![Some(money("-0"))]);
    assert!(one.amount.negative);
    let mixed = sum_(&vec![Some(money("-0")), Some(money("0"))]);
    assert!(!mixed.amount.negative);
}

#[test]
fn vat_gross_is_net_plus_tax() {
    for (n, t) in [("100", "19"), ("4.444", "2.222"), ("-3", "0.57"), ("0", "0")] {
        let m = vat(n, t);
        assert!(same(m.net.add(&m.tax).amount, m.gross().amount));
        let scaled = m.mul_decimal(dec("1.5"));
        assert!(same(scaled.net.add(&scaled.tax).amount, scaled.gross().amount));
    }
}

#[test]
fn vat_new_defaults_and_errors() {
    let m = MoneyWithVAT::new(Some(AmountSource::Text("5".to_string())), None).unwrap();
    assert!(same(m.tax.amount, Dec::zero()));
    assert_eq!(
        MoneyWithVAT::new(None, Some(AmountSource::Text("x".to_string()))).unwrap_err(),
        MoneyError::InvalidAmount
    );
}

#[test]
fn vat_tax_rate() {
    assert!(same(vat("100", "19").tax_rate(), dec("0.19")));
    assert!(same(vat("0", "19").tax_rate(), Dec::zero()));
}

#[test]
fn rounded_to_cents_reconciles_gross() {
    let r = vat("4.444", "2.222").rounded_to_cents();
    assert!(same(r.net.amount, dec("4.44")));
    assert!(same(r.tax.amount, dec("2.23")));
    assert!(same(r.net.add(&r.tax).amount, dec("6.67")));
}

#[test]
fn rounded_parts_add_to_rounded_gross() {
    for (n, t) in [("1.005", "0.195"), ("-7.777", "1.111"), ("10", "1.9"), ("0.004", "0.004")] {
        let m = vat(n, t);
        let r = m.rounded_to_cents();
        let g = m.gross().round(Some(2));
        assert!(same(r.net.add(&r.tax).amount, g.amount));
    }
}

#[test]
fn rounded_to_money_field_precision_rounds_each_part() {
    let r = vat("0.1234567890125", "1.0000000000005").rounded_to_money_field_precision();
    assert!(same(r.net.amount, dec("0.123456789012")));
    assert!(same(r.tax.amount, dec("1.000000000000")));
}

#[test]
fn tax_rate_for_display_snaps_to_known_rate() {
    assert!(same(vat("100", "19.02").tax_rate_for_display(), dec("0.19")));
    assert!(same(vat("100", "7").tax_rate_for_display(), dec("0.07")));
    assert!(same(vat("100", "23").tax_rate_for_display(), dec("0.23")));
    assert!(same(vat("100", "0.04").tax_rate_for_display(), dec("0")));
}

#[test]
fn tax_rate_for_display_takes_first_match() {
    let m = vat("0.5", "0.04");
    assert!(same(m.tax_rate_for_display(), dec("0")));
}

#[test]
fn vat_rate_lists() {
    let known = MoneyWithVAT::known_vat_rates();
    assert_eq!(known.len(), 9);
    assert!(same(known[6], dec("0.19")));
    let german = MoneyWithVAT::german_vat_rates();
    assert_eq!(german.len(), 5);
    assert!(same(german[3], dec("0.16")));
}

#[test]
fn vat_comparisons_up_to_cents() {
    let a = vat("10.001", "0");
    let b = vat("10.004", "0");
    let c = vat("10.02", "0");
    assert!(a.is_equal_up_to_cents(&b));
    assert!(!a.equals(&b));
    assert!(a.is_lower_up_to_cents(&c));
    assert!(a.is_lower_or_equal_up_to_cents(&b));
    assert!(!c.is_lower_or_equal_up_to_cents(&a));
}

#[test]
fn vat_order_by_gross_and_equality_by_parts() {
    let a = vat("100", "19");
    let b = vat("110", "9");
    assert_eq!(a.compare(&b), Ordering::Equal);
    assert!(!a.equals(&b));
    assert!(a.equals(&vat("100.0", "19.00")));
    assert!(a.is_positive());
    assert!(vat("-1", "0").is_negative());
    assert!(!vat("0", "0").is_nonzero());
}

#[test]
fn vat_arithmetic() {
    let a = vat("100", "19");
    let b = vat("10", "1.9");
    let sum = a.add(&b);
    assert!(same(sum.net.amount, dec("110")) && same(sum.tax.amount, dec("20.9")));
    let diff = a.sub(&b);
    assert!(same(diff.net.amount, dec("90")) && same(diff.tax.amount, dec("17.1")));
    let neg = a.neg();
    assert!(same(neg.net.amount, dec("-100")));
    assert!(same(neg.abs().tax.amount, dec("19")));
    let half = a.div_decimal(dec("2")).unwrap();
    assert!(same(half.net.amount, dec("50")) && same(half.tax.amount, dec("9.5")));
    let inv = b.rdiv_decimal(dec("1")).unwrap();
    assert!(same(inv.net.amount, dec("0.1")));
}

#[test]
fn vat_scalar_identity_and_mismatch() {
    let a = vat("100", "19");
    let same_a = a.add_scalar(Dec::zero()).unwrap();
    assert!(same_a.equals(&a));
    assert!(a.sub_scalar(Dec::zero()).unwrap().equals(&a));
    assert!(a.rsub_scalar(Dec::zero()).unwrap().equals(&a.neg()));
    assert_eq!(a.add_scalar(dec("1")).unwrap_err(), MoneyError::TypeMismatch);
    assert_eq!(a.sub_scalar(dec("1")).unwrap_err(), MoneyError::TypeMismatch);
}

#[test]
fn vat_division_by_zero() {
    let a = vat("100", "19");
    assert_eq!(a.div_decimal(Dec::zero()).unwrap_err(), MoneyError::DivisionByZero);
    assert_eq!(vat("100", "0").rdiv_decimal(dec("1")).unwrap_err(), MoneyError::DivisionByZero);
}

#[test]
fn vat_times_ratio_keeps_gross() {
    let m = vat("100", "19");
    let ratio = MoneyWithVATRatio { net_ratio: dec("0.5"), gross_ratio: dec("0.6") };
    let r = m.mul_ratio(&ratio);
    assert!(same(r.net.amount, dec("50")));
    assert!(same(r.gross().amount, dec("71.4")));
    assert!(same(r.tax.amount, dec("21.4")));
}

#[test]
fn ratio_round_trip() {
    let dividend = vat("50", "9.5");
    let divisor = vat("100", "19");
    let ratio = MoneyWithVAT::ratio(&dividend, &divisor).unwrap();
    let back = divisor.mul_ratio(&ratio.mul(dec("1")));
    assert!(same(back.net.amount, dividend.net.amount));
    assert!(same(back.gross().amount, dividend.gross().amount));
}

#[test]
fn ratio_round_trip_within_rounding() {
    let dividend = vat("100", "19");
    let divisor = vat("300", "60");
    let ratio = MoneyWithVAT::ratio(&dividend, &divisor).unwrap();
    let back = divisor.mul_ratio(&ratio);
    assert!(back.net.round(Some(10)).equals(&dividend.net));
    assert!(back.gross().round(Some(10)).equals(&dividend.gross()));
}

#[test]
fn ratio_of_zero_divisor_fails() {
    let a = vat("1", "0");
    assert_eq!(
        MoneyWithVAT::ratio(&a, &vat("0", "5")).unwrap_err(),
        MoneyError::DivisionByZero
    );
    assert_eq!(
        MoneyWithVAT::ratio(&a, &vat("5", "-5")).unwrap_err(),
        MoneyError::DivisionByZero
    );
}

#[test]
fn safe_ratio_rounds_and_tolerates_absence() {
    let r = MoneyWithVAT::safe_ratio(Some(vat("50.001", "9.5")), Some(vat("100", "19"))).unwrap();
    assert!(same(r.net_ratio, dec("0.5")));
    assert!(MoneyWithVAT::safe_ratio(Some(vat("1", "0")), None).is_none());
    assert!(MoneyWithVAT::safe_ratio(Some(vat("1", "0")), Some(vat("0.001", "0"))).is_none());
    let zero = MoneyWithVAT::safe_ratio(None, Some(vat("2", "0"))).unwrap();
    assert!(same(zero.net_ratio, Dec::zero()));
}

#[test]
fn safe_ratio_decimal_cases() {
    let m = vat("10", "2");
    let r = MoneyWithVAT::safe_ratio_decimal(Some(m), Some(dec("4"))).unwrap();
    assert!(same(r.net.amount, dec("2.5")) && same(r.tax.amount, dec("0.5")));
    assert!(MoneyWithVAT::safe_ratio_decimal(Some(m), Some(Dec::zero())).is_none());
    assert!(MoneyWithVAT::safe_ratio_decimal(None, Some(dec("4"))).is_none());
    assert!(MoneyWithVAT::safe_ratio_decimal(Some(m), None).is_none());
}

#[test]
fn fast_sum_with_none_tells_no_data_from_zero() {
    let empty: Vec<Option<MoneyWithVAT>> = Vec::new();
    assert!(MoneyWithVAT::fast_sum_with_none(&empty).is_none());
    assert!(MoneyWithVAT::fast_sum_with_none(&vec![None, None]).is_none());
    let zero = MoneyWithVAT::fast_sum_with_none(&vec![Some(MoneyWithVAT::zero())]).unwrap();
    assert!(zero.equals(&MoneyWithVAT::zero()));
}

#[test]
fn fast_sum_adds_parts() {
    let values = vec![Some(vat("1", "0.19")), None, Some(vat("2", "0.38"))];
    let total = MoneyWithVAT::fast_sum(&values);
    assert!(same(total.net.amount, dec("3")) && same(total.tax.amount, dec("0.57")));
    let nothing = MoneyWithVAT::fast_sum(&vec![None]);
    assert!(nothing.equals(&MoneyWithVAT::zero()));
}

#[test]
fn max_tracks_net_and_gross_apart() {
    let values = vec![vat("100", "0"), vat("90", "20")];
    let m = MoneyWithVAT::max(&values).unwrap();
    assert!(same(m.net.amount, dec("100")));
    assert!(same(m.gross().amount, dec("110")));
    assert!(same(m.tax.amount, dec("10")));
}

#[test]
fn max_of_nothing_fails() {
    let empty: Vec<MoneyWithVAT> = Vec::new();
    assert_eq!(MoneyWithVAT::max(&empty).unwrap_err(), MoneyError::InsufficientArguments);
}

#[test]
fn vat_for_json_and_from_json() {
    let m = vat("100", "19.5");
    let (net, tax) = m.for_json();
    assert_eq!(net, "100.000000000000");
    assert_eq!(tax, "19.500000000000");
    let back = MoneyWithVAT::from_json(
        Some(AmountSource::Text("100".to_string())),
        Some(AmountSource::Text("119.5".to_string())),
    )
    .unwrap();
    assert!(back.equals(&m));
    assert_eq!(
        MoneyWithVAT::from_json(Some(AmountSource::Text("100".to_string())), None).unwrap_err(),
        MoneyError::InvalidStructure
    );
    assert_eq!(
        MoneyWithVAT::from_json(
            Some(AmountSource::Text("1".to_string())),
            Some(AmountSource::Text("nope".to_string()))
        )
        .unwrap_err(),
        MoneyError::InvalidStructure
    );
}

#[test]
fn ratio_operations() {
    let r = MoneyWithVATRatio::new(
        &AmountSource::Text("0.5".to_string()),
        &AmountSource::Text("0.25".to_string()),
    )
    .unwrap();
    assert!(same(r.get_net_ratio(), dec("0.5")));
    assert!(same(r.get_gross_ratio(), dec("0.25")));
    let doubled = r.mul(dec("2"));
    assert!(same(doubled.net_ratio, dec("1")));
    let sum = r.add(&r);
    assert!(sum.equals(&doubled));
    assert!(r.sub(&r).equals(&MoneyWithVATRatio::zero()));
    let neg = r.neg();
    assert!(same(neg.net_ratio, dec("-0.5")));
    let half = r.div(dec("2")).unwrap();
    assert!(same(half.gross_ratio, dec("0.125")));
    assert_eq!(r.div(Dec::zero()).unwrap_err(), MoneyError::DivisionByZero);
    assert_eq!(r.for_json(), ("0.5".to_string(), "0.25".to_string()));
    assert!(r.copy().equals(&r));
}

#[test]
fn ratio_from_bad_source_fails() {
    assert_eq!(
        MoneyWithVATRatio::new(&AmountSource::Text("x".to_string()), &AmountSource::Integer(1))
            .unwrap_err(),
        MoneyError::InvalidDecimal
    );
}

#[test]
fn validation_accepts_decimals_and_refuses_the_rest() {
    let m = Money::validate(&AmountSource::Text("2.50".to_string())).unwrap();
    assert!(same(m.amount, dec("2.5")));
    let kept = Money::validate(&AmountSource::Money(money("-1"))).unwrap();
    assert!(same(kept.amount, dec("-1")));
    assert_eq!(
        Money::validate(&AmountSource::Text("0E-50".to_string())).unwrap_err(),
        MoneyError::ValidationError
    );
    let v = MoneyWithVAT::validate(
        Some(AmountSource::Text("10".to_string())),
        Some(AmountSource::Integer(2)),
    )
    .unwrap();
    assert!(v.equals(&vat("10", "2")));
    assert_eq!(
        MoneyWithVAT::validate(Some(AmountSource::Integer(1)), None).unwrap_err(),
        MoneyError::ValidationError
    );
    let r = MoneyWithVATRatio::validate(
        Some(AmountSource::Text("0.5".to_string())),
        Some(AmountSource::Text("0.6".to_string())),
    )
    .unwrap();
    assert!(same(r.gross_ratio, dec("0.6")));
    assert_eq!(
        MoneyWithVATRatio::validate(None, Some(AmountSource::Integer(1))).unwrap_err(),
        MoneyError::ValidationError
    );
}

#[test]
fn adding_a_zero_of_any_scale_keeps_a_large_value() {
    let large = Dec::from_parts(false, (1u128 << 96) - 1, 0).unwrap();
    let m = MoneyWithVAT { net: Money { amount: large }, tax: Money { amount: dec("1") } };
    let zero = Dec::from_parts(false, 0, 28).unwrap();
    let r = m.add_scalar(zero).unwrap();
    assert!(r.equals(&m));
    let s = m.sub_scalar(Dec::from_parts(true, 0, 28).unwrap()).unwrap();
    assert!(s.equals(&m));
}
