use time_value::{
    single_sum_future_value, single_sum_present_value, Money, Rate, SingleSum, TimeValue,
    ValueError, RATE_SCALE,
};

#[test]
fn rate_scale_is_one_million() {
    assert_eq!(RATE_SCALE, 1_000_000);
    assert_eq!(Rate::from_percent(12).parts(), 120_000);
    assert_eq!(Rate::from_percent(-3).parts(), -30_000);
    assert_eq!(Rate::from_parts(5_000).parts(), 5_000);
    assert_eq!(Rate::from_percent(12), Rate::from_parts(120_000));
}

#[test]
fn rate_sign() {
    assert!(Rate::from_parts(-1).is_negative());
    assert!(!Rate::from_parts(0).is_negative());
    assert!(!Rate::from_parts(1).is_negative());
    assert_eq!(Rate::from_parts(0).growth_parts(), 1_000_000);
    assert_eq!(Rate::from_percent(12).growth_parts(), 1_120_000);
    assert_eq!(Rate::from_parts(i64::MAX).growth_parts(), 9_223_372_036_855_775_807);
}

#[test]
fn single_sum_free_functions_match_scenarios() {
    let fv = single_sum_future_value(15_000_000, Rate::from_percent(12), 10).unwrap();
    assert_eq!(fv, Money::from_cents(46_587_723));
    let pv = single_sum_present_value(100_000, Rate::from_percent(10), 3).unwrap();
    assert_eq!(pv, Money::from_cents(75_131));
}

#[test]
fn single_sum_negative_amount_mirrors_positive() {
    let fv = single_sum_future_value(-15_000_000, Rate::from_percent(12), 10).unwrap();
    assert_eq!(fv.to_cents(), Some(-46_587_723));
    let pv = single_sum_present_value(-100_000, Rate::from_percent(10), 3).unwrap();
    assert_eq!(pv.to_cents(), Some(-75_131));
}

#[test]
fn single_sum_negative_rate_is_refused() {
    let rate = Rate::from_parts(-1);
    assert_eq!(
        single_sum_present_value(1_000, rate, 3),
        Err(ValueError::NegativeDiscount)
    );
    assert_eq!(
        single_sum_future_value(1_000, rate, 3),
        Err(ValueError::NegativeDiscount)
    );
    let sum = SingleSum::new(1_000, Rate::from_percent(-5), 0);
    assert_eq!(sum.present_value(), Err(ValueError::NegativeDiscount));
    assert_eq!(sum.future_value(), Err(ValueError::NegativeDiscount));
}

#[test]
fn single_sum_zero_periods_keeps_amount() {
    let rate = Rate::from_percent(12);
    assert_eq!(single_sum_present_value(12_345, rate, 0).unwrap().to_cents(), Some(12_345));
    assert_eq!(single_sum_future_value(12_345, rate, 0).unwrap().to_cents(), Some(12_345));
    assert_eq!(single_sum_future_value(-7, rate, 0).unwrap().to_cents(), Some(-7));
}

#[test]
fn single_sum_zero_rate_keeps_amount() {
    let rate = Rate::from_parts(0);
    assert_eq!(single_sum_present_value(999, rate, 40).unwrap().to_cents(), Some(999));
    assert_eq!(single_sum_future_value(999, rate, 40).unwrap().to_cents(), Some(999));
    assert_eq!(
        single_sum_present_value(i64::MIN, rate, 3).unwrap().to_cents(),
        Some(i64::MIN)
    );
    assert_eq!(
        single_sum_future_value(i64::MIN, rate, 5).unwrap().to_cents(),
        Some(i64::MIN)
    );
}

#[test]
fn single_sum_zero_amount() {
    let rate = Rate::from_percent(7);
    let pv = single_sum_present_value(0, rate, 12).unwrap();
    assert!(pv.is_zero());
    assert!(!pv.is_negative());
    assert_eq!(single_sum_future_value(0, rate, 12).unwrap().to_cents(), Some(0));
}

#[test]
fn halves_round_away_from_zero() {
    let doubling = Rate::from_percent(100);
    assert_eq!(single_sum_present_value(1, doubling, 1).unwrap().to_cents(), Some(1));
    assert_eq!(single_sum_present_value(-1, doubling, 1).unwrap().to_cents(), Some(-1));
    assert_eq!(single_sum_present_value(3, doubling, 1).unwrap().to_cents(), Some(2));
    assert_eq!(single_sum_present_value(1, doubling, 2).unwrap().to_cents(), Some(0));
    let half_more = Rate::from_percent(50);
    assert_eq!(single_sum_future_value(1, half_more, 1).unwrap().to_cents(), Some(2));
    assert_eq!(single_sum_future_value(-1, half_more, 1).unwrap().to_cents(), Some(-2));
}

#[test]
fn present_value_recovers_amount() {
    let rate = Rate::from_parts(73_210);
    let fv = single_sum_future_value(123_457, rate, 25).unwrap();
    assert_eq!(fv.to_cents(), Some(722_160));
    let back = single_sum_present_value(fv.to_cents().unwrap(), rate, 25).unwrap();
    assert_eq!(back.to_cents(), Some(123_457));
}

#[test]
fn many_periods_do_not_overflow() {
    let rate = Rate::from_parts(5_000);
    assert_eq!(single_sum_future_value(100, rate, 360).unwrap().to_cents(), Some(602));
    assert_eq!(
        single_sum_present_value(1_000_000_000_000, rate, 360).unwrap().to_cents(),
        Some(166_041_928_038)
    );
}

#[test]
fn result_larger_than_i64() {
    let fv = single_sum_future_value(i64::MAX, Rate::from_percent(100), 70).unwrap();
    assert_eq!(fv.to_cents(), None);
    assert!(!fv.is_negative());
    assert!(!fv.is_zero());
    let back = fv.rounded_quotient(2, 70, 1);
    assert_eq!(back.to_cents(), Some(i64::MAX));
    let down = single_sum_future_value(i64::MIN, Rate::from_percent(100), 70).unwrap();
    assert_eq!(down.to_cents(), None);
    assert!(down.is_negative());
}

#[test]
fn single_sum_getters_and_setters() {
    let mut sum = SingleSum::new(150_000, Rate::from_percent(12), 10);
    assert_eq!(sum.amount(), 150_000);
    assert_eq!(sum.rate(), Rate::from_percent(12));
    assert_eq!(sum.period(), 10);
    sum.set_amount(100_000);
    assert_eq!(sum.amount(), 100_000);
    assert_eq!(sum.rate(), Rate::from_percent(12));
    assert_eq!(sum.period(), 10);
    sum.set_rate(Rate::from_percent(10));
    assert_eq!(sum.amount(), 100_000);
    assert_eq!(sum.rate(), Rate::from_percent(10));
    assert_eq!(sum.period(), 10);
    sum.set_period(3);
    assert_eq!(sum.amount(), 100_000);
    assert_eq!(sum.rate(), Rate::from_percent(10));
    assert_eq!(sum.period(), 3);
    assert_eq!(sum.present_value().unwrap().to_cents(), Some(75_131));
    sum.set_rate(Rate::from_parts(-1));
    assert_eq!(sum.future_value(), Err(ValueError::NegativeDiscount));
}
