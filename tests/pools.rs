use fuel_amms::amm::AMM;
use fuel_amms::errors::{ArithmeticError, SwapSimulationError};
use fuel_amms::ids::{AssetId, ContractId};
use fuel_amms::mira::MiraV1;
use fuel_amms::oxiswap::Oxiswap;
use fuel_amms::price::Price;
use fuel_amms::u256::U256;

fn q64_to_f64(q: u128) -> f64 {
    q as f64 / 18446744073709551616.0
}

fn price_value(p: Price) -> f64 {
    match p {
        Price::Q64(q) => q64_to_f64(q),
        Price::Wad(w) => w.as_u128() as f64 / 1e18,
    }
}

fn asset(b: u8) -> AssetId {
    AssetId::new([b; 32])
}

fn mira(reserve_0: u64, reserve_1: u64, decimals_0: u8, decimals_1: u8, is_stable: bool) -> MiraV1 {
    MiraV1::new(
        ContractId::zeroed(),
        (asset(1), asset(2), is_stable),
        asset(1),
        decimals_0,
        asset(2),
        decimals_1,
        reserve_0,
        reserve_1,
        (30, 5, 0, 0),
        is_stable,
    )
}

fn oxiswap(reserve_a: u64, reserve_b: u64, fee: u64) -> Oxiswap {
    Oxiswap::new(ContractId::zeroed(), asset(1), asset(2), reserve_a, reserve_b, fee)
}

#[test]
fn test_calculate_price_edge_case() {
    let token_0 = AssetId::zeroed();
    let token_1 = AssetId::zeroed();
    let x = MiraV1 {
        address: ContractId::zeroed(),
        pool_id: (AssetId::zeroed(), AssetId::zeroed(), false),
        token_0,
        token_0_decimals: 18,
        token_1,
        token_1_decimals: 9,
        reserve_0: 23595096,
        reserve_1: 15466423,
        fee: (300, 300, 300, 300),
        is_stable: false,
    };

    assert!(price_value(x.calculate_price(token_0, AssetId::zeroed()).unwrap()) != 0.0);
    assert!(price_value(x.calculate_price(token_1, AssetId::zeroed()).unwrap()) != 0.0);
}

#[test]
fn price_scenario_of_both_tokens_multiplies_to_one() {
    let pool = mira(23_595_096, 15_466_423, 18, 9, false);
    let p0 = pool.calculate_price_64_x_64(asset(1)).unwrap();
    let p1 = pool.calculate_price_64_x_64(asset(2)).unwrap();
    assert_eq!(p0, 12091713753431437805270619284);
    assert_eq!(p1, 28141781542);
    let f0 = q64_to_f64(p0);
    let f1 = q64_to_f64(p1);
    assert!(f0 != 0.0 && f0.is_finite());
    assert!(f1 != 0.0 && f1.is_finite());
    assert!((f0 * f1 - 1.0).abs() < 1e-9);
}

#[test]
fn price_of_empty_base_reserve_is_largest() {
    let pool = mira(0, 1000, 9, 9, false);
    assert_eq!(pool.calculate_price_64_x_64(asset(1)).unwrap(), u128::MAX);
    let wide_gap = mira(0, 1000, 0, 78, false);
    assert_eq!(wide_gap.calculate_price_64_x_64(asset(1)).unwrap(), u128::MAX);
    assert_eq!(wide_gap.calculate_price_64_x_64(asset(2)), Err(ArithmeticError::Overflow));
}

#[test]
fn price_with_unrepresentable_decimal_shift_overflows() {
    let pool = mira(1000, 1000, 0, 255, false);
    assert_eq!(pool.calculate_price_64_x_64(asset(1)), Err(ArithmeticError::Overflow));
}

#[test]
fn oxiswap_amount_out_exact() {
    let pool = oxiswap(1_000_000, 2_000_000, 300);
    let out = pool
        .get_amount_out(U256::from_u64(1000), U256::from_u64(1_000_000), U256::from_u64(2_000_000))
        .unwrap();
    assert_eq!(out.as_u64(), 1992);
}

#[test]
fn zero_input_gives_zero_output() {
    let pool = oxiswap(1_000_000, 2_000_000, 300);
    let out = pool.simulate_swap(asset(1), asset(2), U256::zero()).unwrap();
    assert!(out.is_zero());
    let m = mira(1_000_000, 2_000_000, 9, 9, false);
    assert!(m.simulate_swap(asset(1), asset(2), U256::zero()).unwrap().is_zero());
    let s = mira(1_000_000, 2_000_000, 9, 9, true);
    assert!(s.simulate_swap(asset(1), asset(2), U256::zero()).unwrap().is_zero());
}

#[test]
fn constant_product_does_not_decrease() {
    for fee in [0u64, 300, 3000, 99_999] {
        let pool = oxiswap(1_000_000, 2_000_000, fee);
        let amount_in: u64 = 50_000;
        let out = pool.simulate_swap(asset(1), asset(2), U256::from_u64(amount_in)).unwrap().as_u64();
        assert!(out < 2_000_000);
        let before = 1_000_000u128 * 2_000_000u128;
        let after = (1_000_000u128 + amount_in as u128) * (2_000_000u128 - out as u128);
        assert!(after >= before);
    }
}

#[test]
fn oxiswap_overflowing_input_is_an_error() {
    let pool = oxiswap(1_000_000, 2_000_000, 300);
    let r = pool.simulate_swap(asset(1), asset(2), U256::max_value());
    assert_eq!(r.unwrap_err(), SwapSimulationError::Overflow);
}

#[test]
fn oxiswap_price_is_reserve_ratio() {
    let pool = oxiswap(1_000, 5_500, 300);
    assert_eq!(price_value(pool.calculate_price(asset(1), asset(2)).unwrap()), 5.5);
    let inverse = price_value(pool.calculate_price(asset(2), asset(1)).unwrap());
    assert!((inverse - 1000.0 / 5500.0).abs() < 1e-15);
    let empty = oxiswap(0, 5_500, 300);
    assert_eq!(empty.calculate_price(asset(1), asset(2)).unwrap_err(), ArithmeticError::DivisionByZero);
}

#[test]
fn oxiswap_swap_mut_moves_reserves() {
    let mut pool = oxiswap(1_000_000, 2_000_000, 300);
    let out = pool.simulate_swap_mut(asset(2), asset(1), U256::from_u64(2000)).unwrap().as_u64();
    assert_eq!(out, 996);
    assert_eq!(pool.reserve_a, 1_000_000 - 996);
    assert_eq!(pool.reserve_b, 2_002_000);
}

#[test]
fn mira_volatile_amount_out_exact() {
    let pool = mira(500_000_000, 1_000_000_000, 9, 9, false);
    let out = pool.simulate_swap(asset(1), asset(2), U256::from_u64(1_000_000)).unwrap();
    assert_eq!(out.as_u64(), 1_994_015);
    let mut small_fee = mira(1, 1_000_000, 9, 9, false);
    small_fee.fee = (10, 0, 5, 0);
    let out = small_fee.simulate_swap(asset(1), asset(2), U256::from_u64(1)).unwrap();
    assert_eq!(out.as_u64(), 499_749);
}

#[test]
fn stable_symmetric_pool_swaps_near_one_to_one() {
    let pool = mira(1_000_000_000, 1_000_000_000, 9, 9, true);
    let out = pool.simulate_swap(asset(1), asset(2), U256::from_u64(1_000_000)).unwrap().as_u64();
    assert_eq!(out, 999_333);
    let small = pool.simulate_swap(asset(2), asset(1), U256::from_u64(1000)).unwrap().as_u64();
    assert_eq!(small, 999);
    assert!(1_000_000 - out < 1_000_000 / 1000);
}

#[test]
fn stable_swap_mut_moves_reserves() {
    let mut amm = AMM::MiraV1(mira(1_000_000_000, 1_000_000_000, 9, 9, true));
    let out = amm.simulate_swap_mut(asset(1), asset(2), U256::from_u64(1_000_000)).unwrap().as_u64();
    assert_eq!(out, 999_333);
    match amm {
        AMM::MiraV1(pool) => {
            assert_eq!(pool.reserve_0, 1_001_000_000);
            assert_eq!(pool.reserve_1, 1_000_000_000 - 999_333);
        }
        AMM::Oxiswap(_) => panic!("variant changed"),
    }
}

#[test]
fn stable_solver_division_by_zero() {
    let pool = mira(1, 1, 0, 0, true);
    let r = pool.simulate_swap(asset(1), asset(2), U256::from_u64(10));
    assert_eq!(r.unwrap_err(), SwapSimulationError::DivisionByZero);
}

#[test]
fn stable_price_of_balanced_pool() {
    let pool = mira(1_000_000_000, 1_000_000_000, 9, 9, true);
    match pool.calculate_price(asset(1), asset(2)).unwrap() {
        Price::Wad(w) => assert_eq!(w.as_u128(), 1_000_000_000_000_000_000),
        _ => panic!("stable price is scaled by 10^18"),
    }
    let unbalanced = mira(1_000_000_000, 2_000_000_000, 9, 9, true);
    match unbalanced.calculate_price(asset(1), asset(2)).unwrap() {
        Price::Wad(w) => assert_eq!(w.as_u128(), 300_000_000_000_000_000),
        _ => panic!("stable price is scaled by 10^18"),
    }
    let empty = mira(1_000_000_000, 0, 9, 9, true);
    assert_eq!(empty.calculate_price(asset(1), asset(2)).unwrap_err(), ArithmeticError::DivisionByZero);
}

#[test]
fn token_out_and_tokens() {
    let amm = AMM::Oxiswap(oxiswap(1, 1, 300));
    assert!(amm.get_token_out(asset(1)) == asset(2));
    assert!(amm.get_token_out(asset(2)) == asset(1));
    let tokens = amm.tokens();
    assert_eq!(tokens.len(), 2);
    assert!(tokens[0] == asset(1) && tokens[1] == asset(2));
    assert!(amm.address() == ContractId::zeroed());
}

#[test]
fn fee_validity() {
    assert!(oxiswap(1, 1, 100_009).has_valid_fee());
    assert!(!oxiswap(1, 1, 100_010).has_valid_fee());
    let mut m = mira(1, 1, 9, 9, false);
    m.fee = (100_000, 0, 10, 0);
    assert!(!m.has_valid_fee());
    m.is_stable = true;
    assert!(m.has_valid_fee());
}

#[test]
fn stable_unbalanced_pool_exact() {
    let pool = mira(1_000_000_000, 2_000_000_000, 9, 9, true);
    let out = pool.simulate_swap(asset(1), asset(2), U256::from_u64(500_000)).unwrap();
    assert_eq!(out.as_u64(), 799_748);
    let mixed = mira(500_000_000, 2_000_000_000, 6, 9, true);
    let out = mixed.simulate_swap(asset(1), asset(2), U256::from_u64(1_000_000)).unwrap();
    assert_eq!(out.as_u64(), 7_928_821);
}

#[test]
fn zero_input_needs_no_valid_fee() {
    let pool = oxiswap(1_000, 1_000, 200_000);
    assert!(!pool.has_valid_fee());
    assert!(pool.can_swap(asset(1), U256::zero()));
    assert!(!pool.can_swap(asset(1), U256::one()));
    assert!(pool.simulate_swap(asset(1), asset(2), U256::zero()).unwrap().is_zero());
    let mut m = mira(1_000, 0, 9, 9, false);
    m.fee = (200_000, 0, 0, 0);
    assert!(m.can_swap(asset(1), U256::from_u64(5)));
    assert!(m.simulate_swap(asset(1), asset(2), U256::from_u64(5)).unwrap().is_zero());
}
