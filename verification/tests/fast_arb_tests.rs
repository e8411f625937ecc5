use monad_arb::config::{RouterType, GAS_BUFFER_PERCENT};
use monad_arb::fast_arb::{
    after_swap1, fast_arb_totals, leg_gas_limit, send_error, swap1_unsent, swap2_unsent, FastArbStep,
    LegReceipt,
};
use monad_arb::uint::U256;

fn leg(success: bool, used: u64, limit: u64, price: u128) -> LegReceipt {
    LegReceipt { tx_hash: format!("0x{:064x}", used), success, gas_used: used, gas_limit: limit, effective_gas_price: price }
}

#[test]
fn swap1_decides() {
    match after_swap1(41, leg(true, 100, 150, 7)) {
        FastArbStep::SendSwap2 { nonce } => assert_eq!(nonce, 42),
        _ => panic!("expected swap 2"),
    }
    match after_swap1(u64::MAX, leg(true, 1, 1, 1)) {
        FastArbStep::SendSwap2 { nonce } => assert_eq!(nonce, 0),
        _ => panic!("expected swap 2"),
    }
    match after_swap1(41, leg(false, 100, 150, 7)) {
        FastArbStep::Finish { result } => {
            assert!(!result.success);
            assert_eq!(result.error, Some("Swap 1 reverted".to_string()));
            assert_eq!(result.total_gas_cost_wei, U256::from_u128(1050));
            assert_eq!(result.total_gas_used, 100);
            assert_eq!(result.total_gas_estimated, 150);
            assert_eq!(result.swap2_gas_estimated, 0);
        }
        _ => panic!("expected finish"),
    }
}

#[test]
fn totals_charge_the_gas_limit() {
    let r = fast_arb_totals(leg(true, 180_000, 250_000, 100_000_000_000), Some(leg(true, 200_000, 300_000, 110_000_000_000)));
    assert!(r.success);
    assert_eq!(r.error, None);
    // 250000 * 100 gwei + 300000 * 110 gwei
    assert_eq!(r.total_gas_cost_wei, U256::from_u128(25_000_000_000_000_000 + 33_000_000_000_000_000));
    assert_eq!(r.total_gas_used, 380_000);
    assert_eq!(r.total_gas_estimated, 550_000);
    let bad = fast_arb_totals(leg(true, 1, 2, 3), Some(leg(false, 4, 5, 6)));
    assert!(!bad.success);
    assert!(!bad.swap2_success);
    assert_eq!(bad.error, Some("One or both swaps reverted".to_string()));
    assert_eq!(bad.total_gas_cost_wei, U256::from_u128(36));
    // the largest limits and prices do not wrap
    let big = fast_arb_totals(leg(true, 0, u64::MAX, u128::MAX), None);
    let expected = alloy::primitives::U256::from(u64::MAX) * alloy::primitives::U256::from(u128::MAX);
    assert_eq!(alloy::primitives::U256::from_limbs(big.total_gas_cost_wei.limbs), expected);
    assert_eq!(big.error, Some("Swap 2 not sent".to_string()));
}

#[test]
fn unsent_legs() {
    assert_eq!(send_error(1, Some("nonce too low".to_string())), "Swap 1 send failed: nonce too low");
    assert_eq!(send_error(2, None), "Swap 2 send timeout");
    let a = swap1_unsent(250_000, send_error(1, None));
    assert_eq!(a.total_gas_estimated, 250_000);
    assert_eq!(a.error, Some("Swap 1 send timeout".to_string()));
    let b = swap2_unsent(leg(true, 10, 20, 3), 300_000, send_error(2, Some("x".to_string())));
    assert_eq!(b.total_gas_cost_wei, U256::from_u128(60));
    assert_eq!(b.swap2_gas_estimated, 300_000);
    assert_eq!(b.error, Some("Swap 2 send failed: x".to_string()));
}

#[test]
fn transaction_hashes_are_recorded() {
    match after_swap1(7, leg(false, 100, 150, 7)) {
        FastArbStep::Finish { result } => {
            assert_eq!(result.swap1_tx_hash, format!("0x{:064x}", 100));
            assert_eq!(result.swap2_tx_hash, "");
        }
        _ => panic!("expected finish"),
    }
    let r = fast_arb_totals(leg(true, 1, 2, 3), Some(leg(true, 4, 5, 6)));
    assert_eq!(r.swap1_tx_hash, format!("0x{:064x}", 1));
    assert_eq!(r.swap2_tx_hash, format!("0x{:064x}", 4));
    let a = swap1_unsent(250_000, send_error(1, None));
    assert_eq!(a.swap1_tx_hash, "");
    assert_eq!(a.swap2_tx_hash, "");
    let b = swap2_unsent(leg(true, 10, 20, 3), 300_000, send_error(2, None));
    assert_eq!(b.swap1_tx_hash, format!("0x{:064x}", 10));
    assert_eq!(b.swap2_tx_hash, "");
}

#[test]
fn estimated_gas_gets_a_ten_percent_buffer() {
    assert_eq!(GAS_BUFFER_PERCENT, 10);
    assert_eq!(leg_gas_limit(Some(100_000), RouterType::UniswapV3), 110_000);
    assert_eq!(leg_gas_limit(Some(123_457), RouterType::LfjLB), 135_802);
    assert_eq!(leg_gas_limit(None, RouterType::UniswapV3), 250_000);
    assert_eq!(leg_gas_limit(None, RouterType::MondayTrade), 250_000);
    assert_eq!(leg_gas_limit(None, RouterType::PancakeV3), 400_000);
    assert_eq!(leg_gas_limit(None, RouterType::LfjLB), 400_000);
}
