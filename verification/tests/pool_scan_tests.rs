use monad_arb::address::Address;
use monad_arb::dex::Dex;
use monad_arb::pool_scan::{found_pool, pancakeswap_pool, pool_lookups};
use monad_arb::tokens::{usdc_token, wmon_token};
use monad_arb::uint::U256;

fn addr(n: u64) -> Address {
    Address { high: 0, mid: 0, low: n }
}

#[test]
fn lookups_sort_each_pair() {
    let r = pool_lookups(&vec![addr(7), addr(2), addr(9)], &vec![500, 2500]);
    let got: Vec<(u64, u64, u32)> = r.iter().map(|(a, b, f)| (a.low, b.low, *f)).collect();
    assert_eq!(
        got,
        vec![(2, 7, 500), (2, 7, 2500), (7, 9, 500), (7, 9, 2500), (2, 9, 500), (2, 9, 2500)]
    );
    assert!(pool_lookups(&vec![addr(1)], &vec![500]).is_empty());
    assert!(pool_lookups(&vec![addr(1), addr(2)], &vec![]).is_empty());
}

#[test]
fn factory_answers() {
    assert_eq!(found_pool(addr(0)), None);
    assert_eq!(found_pool(addr(3)), Some(addr(3)));
    assert_eq!(found_pool(Address { high: 1, mid: 0, low: 0 }), Some(Address { high: 1, mid: 0, low: 0 }));
}

#[test]
fn pancakeswap_pool_state() {
    let p = pancakeswap_pool(addr(5), wmon_token(), usdc_token(), 2500, 99, U256::from_u128(1 << 96));
    assert_eq!(p.dex, Dex::PancakeSwapV3);
    assert_eq!(p.fee, 2500);
    assert_eq!(p.liquidity, U256::from_u128(99));
    assert_eq!((p.decimals0, p.decimals1), (18, 6));
}
