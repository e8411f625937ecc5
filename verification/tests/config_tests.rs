use monad_arb::config::{
    gas_with_buffer, get_fallback_gas_limit, is_dynamic_fee, is_valid_fee_tick_combo, turbo_gas_limit,
    validate_0x_gas, ContractRouter, RouterType,
};

#[test]
fn fallback_limits() {
    assert_eq!(get_fallback_gas_limit(RouterType::UniswapV3), 250_000);
    assert_eq!(get_fallback_gas_limit(RouterType::PancakeV3), 400_000);
    assert_eq!(get_fallback_gas_limit(RouterType::LfjLB), 400_000);
    assert_eq!(get_fallback_gas_limit(RouterType::MondayTrade), 250_000);
}

#[test]
fn buffers() {
    assert_eq!(gas_with_buffer(200_000, 15), 230_000);
    assert_eq!(gas_with_buffer(100_001, 12), 112_001);
    assert_eq!(turbo_gas_limit(), 550_000);
}

#[test]
fn contract_router_ids() {
    assert_eq!(ContractRouter::from(RouterType::UniswapV3), ContractRouter::Uniswap);
    assert_eq!(ContractRouter::from(RouterType::PancakeV3).id(), 1);
    assert_eq!(ContractRouter::from(RouterType::MondayTrade).id(), 2);
    assert_eq!(ContractRouter::from(RouterType::LfjLB).id(), 3);
}

#[test]
fn zero_x_gas_limits() {
    assert_eq!(validate_0x_gas(300_000), Ok(()));
    assert_eq!(validate_0x_gas(900_000), Err("0x gas too high: 900000 > 800000 limit".to_string()));
    assert_eq!(validate_0x_gas(u64::MAX), Err(format!("0x gas too high: {} > 800000 limit", u64::MAX)));
    assert_eq!(
        validate_0x_gas(700_000),
        Err("Total gas too high: 1100000 > 1000000 limit (0x: 700000, Uniswap: 400000)".to_string())
    );
}

#[test]
fn v4_fee_flags() {
    assert!(is_dynamic_fee(0x800000));
    assert!(is_dynamic_fee(0x800bb8));
    assert!(!is_dynamic_fee(3000));
    assert!(is_valid_fee_tick_combo(3000, 60));
    assert!(!is_valid_fee_tick_combo(3000, 1));
    assert!(is_valid_fee_tick_combo(100000, 200));
    assert!(is_valid_fee_tick_combo(1234, 7));
}
