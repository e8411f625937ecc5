use monad_arb::address::Address;
use monad_arb::dex::Dex;
use monad_arb::profit::{FlashLoanProvider, ProfitCalculator};
use monad_arb::quotes::{AtomicQuote, PoolQuote};
use monad_arb::sim_result::{
    create_rejected_result, empty_liquidity_info, evaluated_result, finish_simulation, format_mon,
};
use monad_arb::simulation::SimulationConfidence;
use monad_arb::tokens::{usdc_token, wmon_token};
use monad_arb::uint::U256;

fn addr(n: u64) -> Address {
    Address { high: 0, mid: 0, low: n }
}

fn u(x: u128) -> U256 {
    U256::from_u128(x)
}

fn quote(pool: Address, dex: Dex, amount_in: u128, amount_out: u128, fee_bps: u32) -> PoolQuote {
    PoolQuote {
        pool_address: pool,
        dex,
        token_in: wmon_token(),
        token_out: usdc_token(),
        amount_in: u(amount_in),
        amount_out: u(amount_out),
        fee_paid: u(0),
        fee_bps,
        liquidity: u(0),
        sqrt_price_after: None,
        gas_estimate: 0,
    }
}

#[test]
fn rejected_result_summary() {
    let path = vec![wmon_token(), usdc_token(), wmon_token()];
    let pools = vec![addr(0x1234), addr(0x5678)];
    let dexes = vec![Dex::UniswapV3, Dex::LFJ];
    let r = create_rejected_result(&path, &pools, &dexes, u(1000), &vec![], "no liquidity".to_string());
    assert_eq!(r.confidence, SimulationConfidence::Failed);
    assert!(!r.is_profitable);
    assert_eq!(r.output_amount, u(0));
    assert_eq!(r.rejection_reason, Some("no liquidity".to_string()));
    assert_eq!(r.summary(), "[REJECTED] WMON -> USDC -> WMON | Net: 0 bps | Confidence: FAILED");
    assert_eq!(r.token_path(), "WMON -> USDC -> WMON");
    assert_eq!(r.dex_path(), "Uniswap V3 -> LFJ");
}

#[test]
fn mon_amounts() {
    assert_eq!(format_mon(u(0)), "0");
    assert_eq!(format_mon(u(1_234_500_000_000_000_000)), "1.2345");
    assert_eq!(format_mon(u(50_000_000_000_000)), "0.0000");
    assert_eq!(format_mon(u(300_000_000_000_000)), "0.0003");
}

#[test]
fn empty_liquidity_has_nothing() {
    let l = empty_liquidity_info(addr(7), Dex::Kuru);
    assert_eq!(l.pool_address, addr(7));
    assert_eq!(l.total_liquidity, u(0));
    assert_eq!(l.description(), "0 liquidity (max 1% slippage trade: 0)");
}

#[test]
fn evaluated_result_below_threshold_is_rejected() {
    let calc = ProfitCalculator::new(FlashLoanProvider::Neverland, 10, 5);
    let b = calc.calculate(u(10_000), u(10_000), 60, 0, u(0));
    assert!(!b.above_threshold);
    let path = vec![wmon_token(), usdc_token(), wmon_token()];
    let pools = vec![addr(0x1234)];
    let dexes = vec![Dex::UniswapV3];
    let quotes = AtomicQuote { block_number: 77, timestamp: 0, quotes: vec![], total_gas_estimate: 0 };
    let r = evaluated_result(&path, &pools, &dexes, u(10_000), b, 60, 0, SimulationConfidence::Medium, vec![], quotes);
    assert_eq!(r.block_number, 77);
    assert_eq!(r.net_profit_bps, -9);
    assert_eq!(r.rejection_reason, Some("Net loss of 9 bps (DEX fees: 60 bps, flash loan: 9 bps, gas: 0 wei)".to_string()));
    assert_eq!(r.summary(), "[REJECTED] WMON -> USDC -> WMON | Net: -9 bps | Confidence: MEDIUM");
}

#[test]
fn evaluated_result_marginal_and_verified() {
    let calc = ProfitCalculator::new(FlashLoanProvider::Neverland, 10, 5);
    let path = vec![wmon_token(), usdc_token(), wmon_token()];
    let pools = vec![addr(1)];
    let dexes = vec![Dex::UniswapV3];
    let q = AtomicQuote { block_number: 1, timestamp: 0, quotes: vec![], total_gas_estimate: 0 };
    let b = calc.calculate(u(10_000), u(10_010), 60, 0, u(0));
    let r = evaluated_result(&path, &pools, &dexes, u(10_000), b, 60, 0, SimulationConfidence::High, vec![], q.clone());
    assert_eq!(r.rejection_reason, Some("Profit 1 bps below threshold 15 bps".to_string()));
    assert_eq!(r.summary(), "[MARGINAL] WMON -> USDC -> WMON | Net: 1 bps | Confidence: HIGH");
    let b2 = calc.calculate(u(10_000), u(10_100), 60, 0, u(0));
    let r2 = evaluated_result(&path, &pools, &dexes, u(10_000), b2, 60, 0, SimulationConfidence::High, vec![], q);
    assert_eq!(r2.rejection_reason, None);
    assert_eq!(r2.summary(), "[VERIFIED] WMON -> USDC -> WMON | Net: 91 bps | Confidence: HIGH");
    assert_eq!(r2.output_amount, u(10_091));
}

#[test]
fn detailed_report_lists_each_pool() {
    let path = vec![wmon_token(), usdc_token(), wmon_token()];
    let pools = vec![addr(0x1234)];
    let dexes = vec![Dex::LFJ];
    let mut r = create_rejected_result(&path, &pools, &dexes, u(1000), &vec![], "too small".to_string());
    r.block_number = 5;
    r.quotes.quotes = vec![quote(addr(0x1234), Dex::LFJ, 1000, 990, 25)];
    let report = r.detailed_report();
    let expected = "\n========================================\n SIMULATION RESULT\n========================================\n   Path: WMON -> USDC -> WMON\n   DEXes: LFJ\n   Block: 5\n   Confidence: FAILED\n   STATUS: REJECTED - Not profitable\n\n   Pool 1: 0x0000000000000000000000000000000000001234 (LFJ)\n     - Fee: 25 bps\n     - Quote: 1000 -> 990\n     - Liquidity: \n\n   ─────────────────────────────────────\n   PROFIT BREAKDOWN\n   ─────────────────────────────────────\n   Gross Profit:     0 bps\n   DEX Fees:         -0 bps\n   Flash Loan Fee:   -0 bps (Neverland)\n   Gas Cost:         ~0 MON\n   ─────────────────────────────────────\n   NET PROFIT:       0 bps\n\n   Rejection: too small\n\n========================================\n";
    assert_eq!(report, expected);
}

fn atomic(quotes: Vec<PoolQuote>, gas: u64) -> AtomicQuote {
    AtomicQuote { block_number: 9, timestamp: 1, quotes, total_gas_estimate: gas }
}

#[test]
fn finishing_a_simulation() {
    let calc = ProfitCalculator::new(FlashLoanProvider::Neverland, 10, 5);
    let path = vec![wmon_token(), usdc_token(), wmon_token()];
    let pools = vec![addr(1), addr(2)];
    let dexes = vec![Dex::UniswapV3, Dex::LFJ];

    let failed = finish_simulation(&calc, &path, &pools, &dexes, u(10_000), vec![], Err("timeout".to_string()), u(1));
    assert_eq!(failed.rejection_reason, Some("Quote failed: timeout".to_string()));
    assert_eq!(failed.confidence, SimulationConfidence::Failed);

    let q = vec![quote(addr(1), Dex::UniswapV3, 10_000, 9_000, 30), quote(addr(2), Dex::LFJ, 9_000, 10_100, 25)];
    let heavy = finish_simulation(&calc, &path, &pools, &dexes, u(10_000), vec![], Ok(atomic(q.clone(), 960_000)), u(1));
    assert_eq!(
        heavy.rejection_reason,
        Some("Gas estimate too high (1010000 > 1000000), likely swap would revert".to_string())
    );

    let low = vec![quote(addr(1), Dex::UniswapV3, 10_000, 4_000, 30)];
    let bad = finish_simulation(&calc, &path, &pools, &dexes, u(10_000), vec![], Ok(atomic(low, 100_000)), u(0));
    assert_eq!(bad.rejection_reason, Some("Gross output too low (-6000 bps), likely pool returned bad quote".to_string()));

    let good = finish_simulation(&calc, &path, &pools, &dexes, u(10_000), vec![], Ok(atomic(q.clone(), 100_000)), u(0));
    assert_eq!(good.total_dex_fees_bps, 55);
    assert_eq!(good.gas_units, 150_000);
    assert_eq!(good.block_number, 9);
    assert_eq!(good.net_profit_bps, 91);
    assert!(good.above_threshold);
    assert_eq!(good.rejection_reason, None);
    assert_eq!(good.confidence, SimulationConfidence::Medium);

    let dry = vec![empty_liquidity_info(addr(1), Dex::UniswapV3)];
    let unsure = finish_simulation(&calc, &path, &pools, &dexes, u(10_000), dry, Ok(atomic(q, 100_000)), u(0));
    assert_eq!(unsure.confidence, SimulationConfidence::Low);
}
