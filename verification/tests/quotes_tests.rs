use monad_arb::address::Address;
use monad_arb::dex::Dex;
use monad_arb::quotes::{
    lfj_amount_in, lfj_quote, lfj_quote_fee_bps, lfj_swap_for_y, quote_route, swap_tokens, v3_quote,
    v4_pool_key, v4_quote, PathQuotes, QuoteFetcher, QuoteRoute,
};
use monad_arb::simulation::PoolInfo;
use monad_arb::uint::U256;

fn addr(n: u64) -> Address {
    Address { high: 0, mid: 0, low: n }
}

fn u(x: u128) -> U256 {
    U256::from_u128(x)
}

fn pool(dex: Dex, zero_for_one: bool) -> PoolInfo {
    PoolInfo {
        address: addr(50),
        dex,
        token0: addr(1),
        token1: addr(2),
        fee: 3000,
        liquidity: u(999),
        zero_for_one,
        tick_spacing: None,
        hooks: None,
    }
}

#[test]
fn routes_by_dex() {
    assert_eq!(quote_route(Dex::UniswapV3), QuoteRoute::V3 { pancakeswap: false });
    assert_eq!(quote_route(Dex::PancakeSwapV3), QuoteRoute::V3 { pancakeswap: true });
    assert_eq!(quote_route(Dex::LFJ), QuoteRoute::Lfj);
    assert_eq!(quote_route(Dex::UniswapV4), QuoteRoute::V4);
    assert_eq!(quote_route(Dex::Kuru), QuoteRoute::Unsupported);
}

#[test]
fn v3_quote_from_answer() {
    let p = pool(Dex::UniswapV3, false);
    assert_eq!(swap_tokens(&p), (addr(2), addr(1)));
    let q = v3_quote(&p, u(1_000_000), u(990_000), u(12345), u(80_000));
    assert_eq!(q.token_in, addr(2));
    assert_eq!(q.fee_paid, u(3_000));
    assert_eq!(q.fee_bps, 30);
    assert_eq!(q.gas_estimate, 80_000);
    assert_eq!(q.sqrt_price_after, Some(u(12345)));
}

#[test]
fn lfj_quote_from_answer() {
    let p = pool(Dex::LFJ, true);
    assert!(lfj_swap_for_y(&p, addr(1)));
    assert!(!lfj_swap_for_y(&p, addr(2)));
    assert_eq!(lfj_amount_in(u(5)), 5);
    assert_eq!(lfj_amount_in(U256::max_value()), u128::MAX);
    assert_eq!(lfj_quote_fee_bps(30, 10_000), 30);
    assert_eq!(lfj_quote_fee_bps(30, 0), 0);
    let q = lfj_quote(&p, u(10_000), 9_950, 20);
    assert_eq!(q.dex, Dex::LFJ);
    assert_eq!(q.amount_out, u(9_950));
    assert_eq!(q.fee_paid, u(20));
    assert_eq!(q.fee_bps, 20);
    assert_eq!(q.gas_estimate, 150_000);
}

#[test]
fn v4_keys_and_quotes() {
    let mut p = pool(Dex::UniswapV4, true);
    assert_eq!(v4_pool_key(&p).tick_spacing, 60);
    p.tick_spacing = Some(10);
    assert_eq!(v4_pool_key(&p).tick_spacing, 10);
    p.tick_spacing = Some(0x80_0000);
    assert_eq!(v4_pool_key(&p).tick_spacing, 60);
    p.hooks = Some(addr(9));
    assert_eq!(v4_pool_key(&p).hooks, addr(9));
    let q = v4_quote(&p, u(1_000_000), u(997_000), u(70_000));
    assert_eq!(q.dex, Dex::UniswapV4);
    assert_eq!(q.fee_paid, u(3_000));
    assert_eq!(q.sqrt_price_after, None);
}

#[test]
fn path_quotes_chain() {
    let p = pool(Dex::UniswapV3, true);
    let mut path = PathQuotes::begin(u(1_000));
    let q1 = v3_quote(&p, path.current_amount, u(990), u(0), u(100));
    path.record(q1);
    assert_eq!(path.current_amount, u(990));
    let q2 = v3_quote(&p, path.current_amount, u(1_010), u(0), u(200));
    path.record(q2);
    let atomic = path.finish(7, 8);
    assert_eq!(atomic.total_gas_estimate, 300);
    assert_eq!(atomic.final_amount_out(), u(1_010));
    assert_eq!(atomic.total_fees(), u(3 + 2));
    assert!(atomic.is_atomic());
    let _f = QuoteFetcher::new(());
}
