use time_value::natural::Natural;
use time_value::Money;

#[test]
fn money_round_trips_through_cents() {
    for cents in [0, 1, -1, 42, -42, i64::MAX, i64::MIN, i64::MIN + 1] {
        assert_eq!(Money::from_cents(cents).to_cents(), Some(cents));
    }
}

#[test]
fn money_sign_and_zero() {
    assert!(Money::from_cents(-1).is_negative());
    assert!(!Money::from_cents(0).is_negative());
    assert!(!Money::from_cents(1).is_negative());
    assert!(Money::from_cents(0).is_zero());
    assert!(!Money::from_cents(-3).is_zero());
    let cancelled = Money::from_cents(-5).plus(&Money::from_cents(5));
    assert!(cancelled.is_zero());
    assert!(!cancelled.is_negative());
    assert_eq!(cancelled, Money::from_cents(0));
}

#[test]
fn money_plus_all_sign_cases() {
    let cases: [(i64, i64); 8] =
        [(5, 3), (-5, 3), (5, -3), (-5, -3), (3, -5), (-3, 5), (0, -7), (7, 0)];
    for (a, b) in cases {
        let sum = Money::from_cents(a).plus(&Money::from_cents(b));
        assert_eq!(sum.to_cents(), Some(a + b));
    }
}

#[test]
fn money_plus_leaves_i64() {
    let top = Money::from_cents(i64::MAX);
    let over = top.plus(&Money::from_cents(1));
    assert_eq!(over.to_cents(), None);
    assert_eq!(over.plus(&Money::from_cents(-1)).to_cents(), Some(i64::MAX));
    let bottom = Money::from_cents(i64::MIN);
    let under = bottom.plus(&Money::from_cents(-1));
    assert_eq!(under.to_cents(), None);
    assert!(under.is_negative());
    assert_eq!(under.plus(&Money::from_cents(1)).to_cents(), Some(i64::MIN));
}

#[test]
fn money_scaled() {
    assert_eq!(Money::from_cents(-7).scaled(6).to_cents(), Some(-42));
    assert_eq!(Money::from_cents(7).scaled(0).to_cents(), Some(0));
    assert_eq!(Money::from_cents(7).scaled_signed(-6).to_cents(), Some(-42));
    assert_eq!(Money::from_cents(-7).scaled_signed(-6).to_cents(), Some(42));
    assert_eq!(Money::from_cents(-7).scaled_signed(6).to_cents(), Some(-42));
    assert_eq!(Money::from_cents(1).scaled_signed(i64::MIN).to_cents(), Some(i64::MIN));
    assert_eq!(Money::from_cents(3).scaled_by_power(10, 4).to_cents(), Some(30_000));
    assert_eq!(Money::from_cents(-3).scaled_by_power(10, 0).to_cents(), Some(-3));
}

#[test]
fn money_rounded_quotient() {
    assert_eq!(Money::from_cents(7).rounded_quotient(2, 1, 1).to_cents(), Some(4));
    assert_eq!(Money::from_cents(-7).rounded_quotient(2, 1, 1).to_cents(), Some(-4));
    assert_eq!(Money::from_cents(5).rounded_quotient(3, 1, 1).to_cents(), Some(2));
    assert_eq!(Money::from_cents(4).rounded_quotient(3, 1, 1).to_cents(), Some(1));
    assert_eq!(Money::from_cents(-4).rounded_quotient(3, 1, 1).to_cents(), Some(-1));
    assert_eq!(Money::from_cents(1_000).rounded_quotient(10, 2, 3).to_cents(), Some(3));
    assert_eq!(Money::from_cents(1_050).rounded_quotient(10, 2, 3).to_cents(), Some(4));
    assert_eq!(Money::from_cents(99).rounded_quotient(7, 0, 1).to_cents(), Some(99));
    assert_eq!(Money::from_cents(0).rounded_quotient(7, 3, 5).to_cents(), Some(0));
    let zero = Money::from_cents(-1).rounded_quotient(3, 1, 1);
    assert!(zero.is_zero());
    assert!(!zero.is_negative());
}

#[test]
fn money_equality_is_by_value() {
    assert_eq!(Money::from_cents(12), Money::from_cents(5).plus(&Money::from_cents(7)));
    assert_ne!(Money::from_cents(12), Money::from_cents(-12));
    assert_ne!(Money::from_cents(12), Money::from_cents(13));
    let big = Money::from_cents(i64::MAX).scaled(u64::MAX);
    assert_eq!(big.rounded_quotient(u64::MAX, 1, 1), Money::from_cents(i64::MAX));
    assert_ne!(big, Money::from_cents(i64::MAX));
}

#[test]
fn natural_small_values() {
    assert_eq!(Natural::zero().to_u64(), Some(0));
    assert!(Natural::zero().is_zero());
    assert_eq!(Natural::from_u64(17).to_u64(), Some(17));
    assert!(!Natural::from_u64(17).is_zero());
    assert!(Natural::from_u64(0).is_zero());
    assert_eq!(Natural::from_u64(u64::MAX).to_u64(), Some(u64::MAX));
}

#[test]
fn natural_carries_across_limbs() {
    let top = Natural::from_u64(u64::MAX);
    let next = top.plus(&Natural::from_u64(1));
    assert_eq!(next.to_u64(), None);
    assert!(!next.is_zero());
    assert_eq!(next.minus(&Natural::from_u64(1)).to_u64(), Some(u64::MAX));
    assert_eq!(next.quotient(2).to_u64(), Some(1 << 63));
    assert_eq!(next.quotient(u64::MAX).to_u64(), Some(1));
    let square = top.scaled(u64::MAX);
    assert_eq!(square.quotient(u64::MAX).to_u64(), Some(u64::MAX));
    assert_eq!(square.minus(&square).to_u64(), Some(0));
    assert!(square.minus(&square).is_zero());
}

#[test]
fn natural_order() {
    let small = Natural::from_u64(5);
    let large = Natural::from_u64(u64::MAX).scaled(3);
    assert!(large.at_least(&small));
    assert!(!small.at_least(&large));
    assert!(small.at_least(&small));
    assert!(large.at_least(&large));
    assert!(small.at_least(&Natural::zero()));
    assert!(Natural::zero().at_least(&Natural::from_u64(0)));
    let padded = large.minus(&large).plus(&Natural::from_u64(5));
    assert!(padded.at_least(&small));
    assert!(small.at_least(&padded));
    assert_eq!(padded.to_u64(), Some(5));
}

#[test]
fn natural_power_and_quotient_by_power() {
    assert_eq!(Natural::power(10, 0).to_u64(), Some(1));
    assert_eq!(Natural::power(10, 19).to_u64(), Some(10_000_000_000_000_000_000));
    assert_eq!(Natural::power(10, 20).to_u64(), None);
    assert_eq!(Natural::power(0, 0).to_u64(), Some(1));
    assert_eq!(Natural::power(0, 3).to_u64(), Some(0));
    let big = Natural::power(7, 100);
    assert_eq!(big.quotient_by_power(7, 98).to_u64(), Some(49));
    let again = Natural::power(7, 100).plus(&Natural::from_u64(6));
    assert_eq!(again.quotient_by_power(7, 100).to_u64(), Some(1));
    assert_eq!(Natural::power(7, 100).minus(&Natural::from_u64(1)).quotient_by_power(7, 100).to_u64(), Some(0));
    assert_eq!(Natural::from_u64(100).quotient_by_power(3, 0).to_u64(), Some(100));
}

#[test]
fn natural_quotient_rounds_down() {
    assert_eq!(Natural::from_u64(100).quotient(7).to_u64(), Some(14));
    assert_eq!(Natural::from_u64(6).quotient(7).to_u64(), Some(0));
    assert_eq!(Natural::zero().quotient(7).to_u64(), Some(0));
    let wide = Natural::power(2, 100).plus(&Natural::from_u64(12_345));
    let back = wide.quotient(1 << 40).quotient(1 << 40);
    assert_eq!(back.to_u64(), Some(1 << 20));
}

#[test]
fn magnitude_drops_the_sign() {
    assert_eq!(Money::from_cents(-5).magnitude().to_u64(), Some(5));
    assert_eq!(Money::from_cents(5).magnitude().to_u64(), Some(5));
    assert_eq!(Money::from_cents(0).magnitude().to_u64(), Some(0));
    assert_eq!(Money::from_cents(i64::MIN).magnitude().to_u64(), Some(1 << 63));
}

#[test]
fn limbs_spell_the_number_out() {
    let mut total: u128 = 0;
    let number = Natural::from_u64(u64::MAX).scaled(12_345);
    for limb in number.limbs().iter().rev() {
        total = (total << 64) + *limb as u128;
    }
    assert_eq!(total, u64::MAX as u128 * 12_345);
    let mut small: u128 = 0;
    for limb in Natural::zero().limbs().iter().rev() {
        small = (small << 64) + *limb as u128;
    }
    assert_eq!(small, 0);
}
