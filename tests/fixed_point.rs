use fuel_amms::errors::ArithmeticError;
use fuel_amms::fixed_point::div_uu;
use fuel_amms::u256::U256;

fn q64_to_f64(q: u128) -> f64 {
    q as f64 / 18446744073709551616.0
}

fn u256_of(hi: u128, lo: u128) -> U256 {
    let h = U256::from_u128(hi);
    let l = U256::from_u128(lo);
    U256 { limbs: [l.limbs[0], l.limbs[1], h.limbs[0], h.limbs[1]] }
}

fn decimal(s: &str) -> U256 {
    let mut v = U256::zero();
    for c in s.chars() {
        let d = c.to_digit(10).unwrap() as u64;
        v = v.mul(U256::from_u64(10)).add(U256::from_u64(d));
    }
    v
}

#[test]
fn div_uu_half() {
    assert_eq!(div_uu(U256::from_u64(1), U256::from_u64(2)).unwrap(), 1u128 << 63);
}

#[test]
fn div_uu_zero_denominator() {
    assert_eq!(div_uu(U256::from_u64(7), U256::zero()), Err(ArithmeticError::DivisionByZero));
    assert_eq!(div_uu(U256::zero(), U256::zero()), Err(ArithmeticError::DivisionByZero));
}

#[test]
fn div_uu_below_two_pow_192_approximates_ratio() {
    let x = decimal("5000000000000000000000000000000000000000000000000000000000");
    let y = decimal("3000000000000000000000000000000000000000000000000000000000");
    let q = div_uu(x, y).unwrap();
    assert_eq!(q, 30744573456182586026);
    let ratio = 5.0 / 3.0;
    assert!(((q64_to_f64(q) - ratio) / ratio).abs() < 1e-9);
}

#[test]
fn div_uu_above_two_pow_192_approximates_ratio() {
    let x = decimal("10000000000000000000000000000000000000000000000000000000000000000000000");
    let y = decimal("7000000000000000000000000000000000000000000000000000000000000000000000");
    let q = div_uu(x, y).unwrap();
    assert_eq!(q, 26352491533870788022);
    let ratio = 10.0 / 7.0;
    assert!(((q64_to_f64(q) - ratio) / ratio).abs() < 1e-9);
}

#[test]
fn div_uu_large_exact_quotient() {
    // 2^200 / 2^140 = 2^60, that is 2^124 in 64.64.
    let x = u256_of(1u128 << 72, 0);
    let y = u256_of(1u128 << 12, 0);
    assert_eq!(div_uu(x, y).unwrap(), 1u128 << 124);
    let big = decimal("10000000000000000000000000000000000000000000000000000000000000000000000000000");
    let small = decimal("1000000000000000000000000000000000000000000000000000000000000");
    assert_eq!(div_uu(big, small).unwrap(), 184467440737095516160000000000000000);
}

#[test]
fn div_uu_quotient_beyond_128_bits_is_zero() {
    let x = u256_of(1u128 << 72, 0);
    assert_eq!(div_uu(x, U256::from_u64(3)).unwrap(), 0);
    assert_eq!(div_uu(U256::max_value(), U256::from_u64(1)).unwrap(), 0);
}

#[test]
fn div_uu_estimate_one_below_is_a_rounding_error() {
    // x * 2^64 = q * y + r with the estimate one below q and y + r >= 2^256.
    let x = U256 { limbs: [u64::MAX, u64::MAX, u64::MAX, 0x8000000000000004] };
    let y = U256 { limbs: [u64::MAX - 2, u64::MAX, u64::MAX, u64::MAX] };
    assert_eq!(div_uu(x, y), Err(ArithmeticError::RoundingError));
}
