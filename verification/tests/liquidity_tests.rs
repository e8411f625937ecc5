use monad_arb::address::Address;
use monad_arb::dex::Dex;
use monad_arb::liquidity::{
    estimate_price_impact, kuru_liquidity_info, lfj_bin_ids, lfj_liquidity_info, path_min_liquidity,
    v3_liquidity_info, v4_liquidity_info, LiquidityAnalyzer,
};
use monad_arb::uint::U256;

fn u(x: u128) -> U256 {
    U256::from_u128(x)
}

fn pool() -> Address {
    Address { high: 0, mid: 0, low: 77 }
}

#[test]
fn v3_trade_sizes() {
    let info = v3_liquidity_info(pool(), Dex::UniswapV3, 1_000_000, -5);
    assert_eq!(info.total_liquidity, u(1_000_000));
    assert_eq!(info.max_trade_05pct_slippage, u(5_000));
    assert_eq!(info.max_trade_1pct_slippage, u(10_000));
    assert_eq!(info.max_trade_2pct_slippage, u(20_000));
    assert_eq!(info.current_tick, Some(-5));
    let v4 = v4_liquidity_info(1_000, 60);
    assert_eq!(v4.dex, Dex::UniswapV4);
    assert_eq!(v4.pool_address, Address { high: 0, mid: 0, low: 0 });
}

#[test]
fn lfj_bins_and_sizes() {
    let ids = lfj_bin_ids(8_388_608);
    assert_eq!(ids.len(), 21);
    assert_eq!(ids[0], 8_388_598);
    assert_eq!(ids[20], 8_388_618);
    let bins = vec![Some((100u128, 200u128)), None, Some((300u128, 400u128))];
    let info = lfj_liquidity_info(pool(), 8_388_608, &bins);
    assert_eq!(info.total_liquidity, u(1_000));
    assert_eq!(info.max_trade_05pct_slippage, u(10));
    assert_eq!(info.max_trade_1pct_slippage, u(20));
    assert_eq!(info.max_trade_2pct_slippage, u(40));
    assert_eq!(info.active_bin_id, Some(8_388_608));
}

#[test]
fn price_impact_by_dex() {
    let v3 = v3_liquidity_info(pool(), Dex::UniswapV3, 1_000_000, 0);
    // 1% of liquidity: 100 bps
    assert_eq!(estimate_price_impact(u(10_000), &v3), 100);
    let lfj = lfj_liquidity_info(pool(), 1, &vec![Some((500_000, 500_000))]);
    assert_eq!(estimate_price_impact(u(10_000), &lfj), 50);
    let v4 = v4_liquidity_info(1_000_000, 0);
    assert_eq!(estimate_price_impact(u(10_000), &v4), 75);
    // capped at 10000
    assert_eq!(estimate_price_impact(u(2_000_000), &v3), 10000);
    let empty = kuru_liquidity_info(pool());
    assert_eq!(estimate_price_impact(u(1), &empty), 10000);
}

#[test]
fn analyzer_judges_trades() {
    let a = LiquidityAnalyzer::new(());
    let v3 = v3_liquidity_info(pool(), Dex::UniswapV3, 1_000_000, 0);
    assert!(a.is_trade_viable(u(10_000), &v3, 100));
    assert!(!a.is_trade_viable(u(10_000), &v3, 99));
    assert_eq!(a.recommended_trade_size(&v3, 50), u(5_000));
    assert_eq!(a.recommended_trade_size(&v3, 100), u(10_000));
    assert_eq!(a.recommended_trade_size(&v3, 101), u(20_000));
}

#[test]
fn path_bottleneck() {
    assert_eq!(path_min_liquidity(&vec![u(5), u(3), u(9)]), u(3));
    assert_eq!(path_min_liquidity(&vec![]), U256::max_value());
}

#[test]
fn description_and_threshold() {
    let big = v3_liquidity_info(pool(), Dex::UniswapV3, 2_000_000_000_000_000_000_000_000, 0);
    assert_eq!(big.description(), "2M liquidity (max 1% slippage trade: 20000)");
    let mid = v3_liquidity_info(pool(), Dex::UniswapV3, 5_000_000_000_000_000_000_000, 0);
    assert_eq!(mid.description(), "5K liquidity (max 1% slippage trade: 50)");
    let small = v3_liquidity_info(pool(), Dex::UniswapV3, 7_000_000_000_000_000_000, 0);
    assert_eq!(small.description(), "7 liquidity (max 1% slippage trade: 0)");
    assert!(small.has_sufficient_liquidity(u(7_000_000_000_000_000_000)));
    assert!(!small.has_sufficient_liquidity(u(7_000_000_000_000_000_001)));
}
