use monad_arb::address::Address;
use monad_arb::batch_pools::{
    gather_pools, keep_batch_pool, lfj_bin_steps, lfj_pair_pool, lfj_pair_queries, LfjPairData, MIN_POOL_LIQUIDITY,
};
use monad_arb::dex::Dex;
use monad_arb::tokens::{usdc_token, wmon_token};
use monad_arb::uint::U256;

fn addr(n: u64) -> Address {
    Address { high: 0, mid: 0, low: n }
}

#[test]
fn lfj_queries_cover_both_orders() {
    assert_eq!(lfj_bin_steps(), vec![1, 5, 10, 15, 20, 25]);
    let q = lfj_pair_queries(&vec![addr(1), addr(2), addr(3)], &vec![10, 25]);
    let got: Vec<(u64, u64, u16)> = q.iter().map(|(a, b, s)| (a.low, b.low, *s)).collect();
    assert_eq!(
        got,
        vec![
            (1, 2, 10), (2, 1, 10), (1, 2, 25), (2, 1, 25),
            (1, 3, 10), (3, 1, 10), (1, 3, 25), (3, 1, 25),
            (2, 3, 10), (3, 2, 10), (2, 3, 25), (3, 2, 25),
        ]
    );
    assert_eq!(lfj_pair_queries(&vec![addr(1), addr(2)], &lfj_bin_steps()).len(), 12);
    assert!(lfj_pair_queries(&vec![addr(1)], &lfj_bin_steps()).is_empty());
}

#[test]
fn lfj_pair_to_pool() {
    let data = LfjPairData {
        token_x: usdc_token(),
        token_y: wmon_token(),
        bin_step: 15,
        active_id: 8_388_608,
        reserve_x: U256::from_u128(600),
        reserve_y: U256::from_u128(400),
    };
    let p = lfj_pair_pool(addr(77), &data, U256::from_u128(1 << 96));
    assert_eq!(p.address, addr(77));
    assert_eq!(p.fee, 15_000);
    assert_eq!(p.dex, Dex::LFJ);
    assert_eq!(p.liquidity, U256::from_u128(1000));
    // WMON's address sorts before USDC's
    assert_eq!(p.token0, wmon_token());
    assert_eq!(p.decimals0, 18);
    assert_eq!(p.decimals1, 6);
    assert!(!keep_batch_pool(&p));
    let rich = LfjPairData { reserve_x: U256::from_u128(MIN_POOL_LIQUIDITY), ..data };
    assert!(keep_batch_pool(&lfj_pair_pool(addr(77), &rich, U256::from_u128(1))));
}

#[test]
fn gathered_pools_skip_failed_lookups() {
    let data = LfjPairData {
        token_x: addr(1),
        token_y: addr(2),
        bin_step: 1,
        active_id: 0,
        reserve_x: U256::from_u128(1),
        reserve_y: U256::from_u128(1),
    };
    let p = lfj_pair_pool(addr(5), &data, U256::from_u128(1));
    let r = gather_pools(Some(vec![p, p]), None, Some(vec![p]));
    assert_eq!(r.uniswap_v3_count, 2);
    assert_eq!(r.pancakeswap_count, 0);
    assert_eq!(r.lfj_count, 1);
    assert_eq!(r.pools.len(), 3);
    assert_eq!(r.total_count(), 3);
}
