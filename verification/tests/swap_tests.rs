use monad_arb::config::SwapDirection;
use monad_arb::swap::{
    approval_needed, direction_decimals, received_amount, swap_confirmed, swap_gas_cost, swap_gas_limit,
    swap_send_failed,
};
use monad_arb::tokens::{usdc_token, wmon_token};
use monad_arb::uint::U256;

#[test]
fn swap_sides() {
    assert_eq!(direction_decimals(SwapDirection::Sell), (18, 6));
    assert_eq!(direction_decimals(SwapDirection::Buy), (6, 18));
}

#[test]
fn approvals_and_gas() {
    assert!(approval_needed(U256::from_u64(5), U256::from_u64(6)));
    assert!(!approval_needed(U256::from_u64(6), U256::from_u64(6)));
    assert_eq!(swap_gas_limit(250_000), 275_000);
    assert_eq!(swap_gas_limit(9), 9);
}

#[test]
fn swap_outcome() {
    assert_eq!(received_amount(U256::from_u64(100), U256::from_u64(350)), U256::from_u64(250));
    assert_eq!(received_amount(U256::from_u64(100), U256::from_u64(50)), U256::zero());
    assert_eq!(swap_gas_cost(21_000, 52_000_000_000), U256::from_u128(1_092_000_000_000_000));
}

#[test]
fn swap_records() {
    let ok = swap_confirmed(
        "Uniswap".to_string(),
        SwapDirection::Sell,
        wmon_token(),
        usdc_token(),
        U256::from_u128(1_000_000_000_000_000_000),
        U256::from_u128(500),
        U256::from_u128(3_500_500),
        150_000,
        100_000_000_000,
        "0xabc".to_string(),
        true,
    );
    assert_eq!(ok.amount_out, U256::from_u128(3_500_000));
    assert_eq!(ok.gas_cost_wei, U256::from_u128(15_000_000_000_000_000));
    assert_eq!(ok.tx_hash, "0xabc");
    assert!(ok.success);
    assert_eq!(ok.error, None);
    let reverted = swap_confirmed(
        "LFJ".to_string(),
        SwapDirection::Buy,
        usdc_token(),
        wmon_token(),
        U256::from_u128(10),
        U256::from_u128(9),
        U256::from_u128(7),
        1,
        2,
        "0xdef".to_string(),
        false,
    );
    assert_eq!(reverted.amount_out, U256::from_u128(0));
    assert_eq!(reverted.error, Some("Transaction reverted".to_string()));
    let failed = swap_send_failed(
        "LFJ".to_string(),
        SwapDirection::Buy,
        usdc_token(),
        wmon_token(),
        U256::from_u128(10),
        "insufficient funds".to_string(),
    );
    assert_eq!(failed.tx_hash, "");
    assert_eq!(failed.gas_cost_wei, U256::from_u128(0));
    assert!(!failed.success);
    assert_eq!(failed.error, Some("insufficient funds".to_string()));
}
