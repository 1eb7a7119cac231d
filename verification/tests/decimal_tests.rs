use modelo720::decimal::Decimal;

#[test]
fn decimal_new_keeps_mantissa_and_scale() {
    let d = Decimal::new(12345, 2).unwrap();
    assert_eq!(d.mantissa(), 12345);
    assert_eq!(d.scale(), 2);
}

#[test]
fn decimal_new_refuses_a_scale_over_28() {
    assert!(Decimal::new(1, 29).is_none());
    assert!(Decimal::new(1, 28).is_some());
}

#[test]
fn cents_round_half_away_from_zero() {
    assert_eq!(Decimal::new(1005, 3).unwrap().cents(), 101);
    assert_eq!(Decimal::new(-1005, 3).unwrap().cents(), -101);
    assert_eq!(Decimal::new(1004, 3).unwrap().cents(), 100);
    assert_eq!(Decimal::new(-1, 3).unwrap().cents(), 0);
    assert_eq!(Decimal::new(7, 0).unwrap().cents(), 700);
}

#[test]
fn decimal_signs_and_magnitude() {
    let n = Decimal::new(-25, 1).unwrap();
    assert!(n.is_negative());
    assert!(!n.is_positive());
    assert!(!n.is_zero());
    assert_eq!(n.abs().mantissa(), 25);
    assert_eq!(n.abs().scale(), 1);
    assert!(Decimal::zero().is_zero());
    assert_eq!(Decimal::from_i64(-7).mantissa(), -7);
    assert_eq!(Decimal::from_i64(-7).scale(), 0);
    assert_eq!(Decimal::from_cents(1234).mantissa(), 1234);
    assert_eq!(Decimal::from_cents(1234).scale(), 2);
}

#[test]
fn decimal_new_refuses_a_mantissa_over_96_bits() {
    let max = 79_228_162_514_264_337_593_543_950_335i128;
    assert!(Decimal::new(max, 0).is_some());
    assert!(Decimal::new(-max, 28).is_some());
    assert!(Decimal::new(max + 1, 0).is_none());
    assert!(Decimal::new(-max - 1, 0).is_none());
}

#[test]
fn rounded_integer_rounds_half_away_from_zero() {
    assert_eq!(Decimal::new(25, 1).unwrap().rounded_integer(), 3);
    assert_eq!(Decimal::new(-25, 1).unwrap().rounded_integer(), -3);
    assert_eq!(Decimal::new(24, 1).unwrap().rounded_integer(), 2);
    assert_eq!(Decimal::new(7, 0).unwrap().rounded_integer(), 7);
    assert_eq!(Decimal::new(49_999, 5).unwrap().rounded_integer(), 0);
}

#[test]
fn amount_is_made_from_a_decimal() {
    let d = Decimal::new(12345, 3).unwrap();
    let a = modelo720::number::Modelo720Number::<15>::from(d);
    assert_eq!(a.cents(), 1235);
    assert_eq!(a.value().mantissa(), 12345);
    assert_eq!(modelo720::number::Modelo720Number::<18>::zero().cents(), 0);
}

#[test]
fn powers_of_ten_and_rounding_on_integers() {
    assert_eq!(modelo720::decimal::pow10_exec(0), 1);
    assert_eq!(modelo720::decimal::pow10_exec(28), 10_000_000_000_000_000_000_000_000_000);
    assert_eq!(modelo720::decimal::round_half_away_exec(15, 10), 2);
    assert_eq!(modelo720::decimal::round_half_away_exec(-15, 10), -2);
    assert_eq!(modelo720::decimal::round_half_away_exec(14, 10), 1);
    assert_eq!(modelo720::decimal::round_half_away_exec(-14, 10), -1);
    assert_eq!(modelo720::decimal::round_half_away_exec(0, 3), 0);
}
