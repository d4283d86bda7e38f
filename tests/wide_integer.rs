use fuel_amms::u256::U256;

#[test]
fn arithmetic_on_wide_values() {
    let a = U256::from_u128(u128::MAX);
    let b = a.add(U256::one());
    assert!(!b.fits_u128());
    assert_eq!(b.limbs, [0, 0, 1, 0]);
    assert_eq!(b.sub(U256::one()).as_u128(), u128::MAX);
    let c = U256::from_u64(1 << 40).mul(U256::from_u64(1 << 40));
    assert_eq!(c.as_u128(), 1u128 << 80);
    assert_eq!(c.div(U256::from_u64(1 << 30)).as_u64(), 1 << 50);
}

#[test]
fn comparisons_follow_values() {
    let small = U256::from_u64(5);
    let big = U256::from_u128(1u128 << 100);
    assert!(small.lt(&big));
    assert!(!big.lt(&small));
    assert!(small.le(&small));
    assert!(!big.le(&small));
    assert!(big.eq_value(&U256::from_u128(1u128 << 100)));
    assert!(!big.eq_value(&small));
}

#[test]
fn powers_of_two() {
    assert_eq!(U256::pow2(100).as_u128(), 1u128 << 100);
    assert_eq!(U256::pow2(255).limbs, [0, 0, 0, 1 << 63]);
    assert!(U256::zero().is_zero());
    assert!(U256::from_u64(7).fits_u64());
    assert!(!U256::pow2(64).fits_u64());
}
