use parallel_pallets::arithmetic::{saturating_mul, FixedU128, Perbill, Permill, DIV};

fn fixed(inner: u128) -> FixedU128 {
    FixedU128::from_inner(inner)
}

#[test]
fn fixed_products_round_down() {
    // 1.5 * 2.5
    let product = fixed(DIV + DIV / 2).checked_mul(&fixed(2 * DIV + DIV / 2));
    assert_eq!(product, Some(fixed(3 * DIV + 3 * DIV / 4)));
    // a third of three units of the last decimal, and of two
    assert_eq!(fixed(DIV / 3).checked_mul(&fixed(3)), Some(fixed(0)));
    assert_eq!(fixed(DIV / 2).checked_mul(&fixed(3)), Some(fixed(1)));
    assert_eq!(fixed(u128::MAX).checked_mul(&fixed(DIV)), Some(fixed(u128::MAX)));
    assert_eq!(fixed(u128::MAX).checked_mul(&fixed(DIV + 1)), None);
}

#[test]
fn fixed_quotients_round_down() {
    assert_eq!(fixed(DIV).checked_div(&fixed(3 * DIV)), Some(fixed(333_333_333_333_333_333)));
    assert_eq!(fixed(2 * DIV).checked_div(&fixed(3 * DIV)), Some(fixed(666_666_666_666_666_666)));
    assert_eq!(fixed(DIV).checked_div(&fixed(0)), None);
    assert_eq!(fixed(0).checked_div(&fixed(5)), Some(fixed(0)));
    assert_eq!(fixed(u128::MAX).checked_div(&fixed(1)), None);
    assert_eq!(fixed(u128::MAX).checked_div(&fixed(DIV)), Some(fixed(u128::MAX)));
}

#[test]
fn products_with_integers_round_down() {
    assert_eq!(fixed(DIV / 50).checked_mul_int(50_000), Some(1_000));
    assert_eq!(fixed(DIV / 50).checked_mul_int(49), Some(0));
    assert_eq!(fixed(DIV / 50).checked_mul_int(99), Some(1));
    assert_eq!(fixed(2 * DIV).checked_mul_int(u128::MAX), None);
    assert_eq!(fixed(DIV).checked_mul_int(u128::MAX), Some(u128::MAX));
}

#[test]
fn fixed_sums_and_differences_are_checked() {
    assert_eq!(fixed(1).checked_add(&fixed(2)), Some(fixed(3)));
    assert_eq!(fixed(u128::MAX).checked_add(&fixed(1)), None);
    assert_eq!(fixed(3).checked_sub(&fixed(2)), Some(fixed(1)));
    assert_eq!(fixed(2).checked_sub(&fixed(3)), None);
    assert!(FixedU128::zero().is_zero());
    assert!(!fixed(1).is_zero());
    assert_eq!(FixedU128::saturating_from_integer(7).into_inner(), 7 * DIV);
    assert_eq!(FixedU128::saturating_from_integer(u128::MAX).into_inner(), u128::MAX);
}

#[test]
fn parts_round_as_asked() {
    let half = Permill::from_parts(500_000);
    assert_eq!(half.mul_floor(5), 2);
    assert_eq!(half.mul_ceil(5), 3);
    assert_eq!(half.mul_floor(u128::MAX), u128::MAX / 2);
    assert_eq!(half.mul_ceil(u128::MAX), u128::MAX / 2 + 1);
    let third = Permill::from_parts(333_333);
    assert_eq!(third.mul_floor(1_000_000), 333_333);
    assert_eq!(third.mul_ceil(1_000_001), 333_334);
    assert_eq!(Permill::from_parts(2_000_000).mul_floor(7), 7);
    assert_eq!(Permill::from_parts(2_000_000).parts, 1_000_000);
    assert_eq!(Permill::from_parts(0).mul_ceil(7), 0);
}

#[test]
fn billionths_and_their_reciprocals() {
    let fee = Perbill::from_parts(3_000_000);
    assert_eq!(fee.mul_floor(10_000), 30);
    assert_eq!(fee.mul_floor(10_999), 32);
    // 333.3, rounded to the nearest
    assert_eq!(fee.saturating_reciprocal_mul(1), 333);
    // 2.5, rounded up
    assert_eq!(Perbill::from_parts(400_000_000).saturating_reciprocal_mul(1), 3);
    assert_eq!(Perbill::from_parts(500_000).saturating_reciprocal_mul(1), 2_000);
    assert_eq!(Perbill::from_parts(1).saturating_reciprocal_mul(u128::MAX), u128::MAX);
    assert_eq!(Perbill::from_parts(2_000_000_000).saturating_reciprocal_mul(9), 9);
}

#[test]
fn products_stop_at_the_largest() {
    assert_eq!(saturating_mul(6, 7), 42);
    assert_eq!(saturating_mul(u128::MAX, 2), u128::MAX);
}
