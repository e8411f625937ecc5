use monad_arb::address::{address_bytes, address_from_word, Address};
use monad_arb::dex::Dex;
use monad_arb::tokens::{usdc_token, wmon_token};
use monad_arb::uint::U256;
use monad_arb::v4_pools::{
    discovery_block_ranges, is_monitored_token, probe_pool_id, probed_pool, slot0_usable, v4_probe_keys, is_pool_safe_for_arb, keep_v4_pool, pool_from_state, pool_id,
    select_discovered_pools, state_wanted, InitializeEvent, V4_MIN_LIQUIDITY,
};

fn addr(n: u64) -> Address {
    Address { high: 0, mid: 0, low: n }
}

fn alloy_addr(a: Address) -> alloy::primitives::Address {
    alloy::primitives::Address::from(address_bytes(a))
}

/// The id computed independently: keccak-256 over the five 32-byte words.
fn expected_id(c0: Address, c1: Address, fee: u32, ts: i32, hooks: Address) -> [u8; 32] {
    let mut data = Vec::new();
    for a in [c0, c1] {
        data.extend_from_slice(&[0u8; 12]);
        data.extend_from_slice(&address_bytes(a));
    }
    let mut w = [0u8; 32];
    w[28..32].copy_from_slice(&fee.to_be_bytes());
    data.extend_from_slice(&w);
    let mut t = if ts < 0 { [0xffu8; 32] } else { [0u8; 32] };
    t[28..32].copy_from_slice(&ts.to_be_bytes());
    data.extend_from_slice(&t);
    data.extend_from_slice(&[0u8; 12]);
    data.extend_from_slice(&address_bytes(hooks));
    alloy::primitives::keccak256(&data).0
}

#[test]
fn address_bytes_round_trip() {
    let a = Address { high: 0x0102_0304, mid: 0x0506_0708_090a_0b0c, low: 0x0d0e_0f10_1112_1314 };
    let b = address_bytes(a);
    assert_eq!(b, [1, 2, 3, 4, 5, 6, 7, 8, 9, 10, 11, 12, 13, 14, 15, 16, 17, 18, 19, 20]);
    let mut w = [0xaau8; 32];
    w[12..32].copy_from_slice(&b);
    assert_eq!(address_from_word(&w), a);
}

#[test]
fn pool_safety() {
    assert!(is_pool_safe_for_arb(3000, addr(0)));
    assert!(!is_pool_safe_for_arb(0x80_0000, addr(0)));
    assert!(!is_pool_safe_for_arb(0x80_0bb8, addr(0)));
    // hooks whose last byte has the delta-returning permissions
    assert!(!is_pool_safe_for_arb(3000, addr(0x1234_0008)));
    assert!(!is_pool_safe_for_arb(3000, addr(0x1234_0004)));
    assert!(is_pool_safe_for_arb(3000, addr(0x1234_0080)));
    assert!(is_pool_safe_for_arb(500, Address { high: 7, mid: 0, low: 0x0003 }));
}

#[test]
fn monitored_tokens() {
    assert!(is_monitored_token(wmon_token()));
    assert!(is_monitored_token(usdc_token()));
    assert!(!is_monitored_token(addr(99)));
}

#[test]
fn block_ranges() {
    let r = discovery_block_ranges(100_000);
    assert_eq!(r, vec![(50_000, 59_999), (60_000, 69_999), (70_000, 79_999), (80_000, 89_999), (90_000, 99_999)]);
    let r = discovery_block_ranges(25_000);
    assert_eq!(r, vec![(0, 9_999), (10_000, 19_999), (20_000, 25_000)]);
    assert_eq!(discovery_block_ranges(0), vec![]);
    assert_eq!(discovery_block_ranges(1), vec![(0, 1)]);
}

#[test]
fn pool_ids_match_the_encoding() {
    let c0 = wmon_token();
    let c1 = usdc_token();
    let id = pool_id(c0, c1, 3000, 60, addr(0));
    assert_eq!(id, expected_id(c0, c1, 3000, 60, addr(0)));
    let id2 = pool_id(c0, c1, 500, -10, addr(0x44));
    assert_eq!(id2, expected_id(c0, c1, 500, -10, addr(0x44)));
    assert_ne!(id, id2);
    // the same key through alloy's own types
    let key = (
        alloy_addr(c0),
        alloy_addr(c1),
        alloy::primitives::aliases::U24::from(3000u32),
        alloy::primitives::aliases::I24::unchecked_from(60i32),
        alloy_addr(addr(0)),
    );
    let direct = alloy::primitives::keccak256(alloy::sol_types::SolValue::abi_encode(&key));
    assert_eq!(id, direct.0);
}

#[test]
fn discovery_keeps_safe_monitored_pools() {
    let tokens = vec![wmon_token(), usdc_token()];
    let ev = |c0: Address, c1: Address, fee: u32, hooks: Address, sqrt: U256| InitializeEvent {
        currency0: c0,
        currency1: c1,
        fee,
        tick_spacing: 60,
        hooks,
        sqrt_price_x96: sqrt,
    };
    let big = U256 { limbs: [0, 0, 1, 0] };
    let events = vec![
        ev(wmon_token(), usdc_token(), 3000, addr(0), U256::from_u128(77)),
        ev(wmon_token(), addr(5), 3000, addr(0), U256::from_u128(1)),
        ev(wmon_token(), usdc_token(), 0x80_0000, addr(0), U256::from_u128(1)),
        ev(usdc_token(), wmon_token(), 500, addr(0x100), big),
    ];
    let found = select_discovered_pools(&events, &tokens);
    assert_eq!(found.len(), 2);
    assert_eq!(found[0].fee, 3000);
    assert_eq!(found[0].initial_sqrt_price, 77);
    assert_eq!(found[0].pool_id, expected_id(wmon_token(), usdc_token(), 3000, 60, addr(0)));
    assert_eq!(found[1].currency0, usdc_token());
    assert_eq!(found[1].initial_sqrt_price, u128::MAX);
    assert!(state_wanted(&found[0]));

    let pool = pool_from_state(&found[0], U256::from_u128(1 << 96), 5_000_000, 3000).unwrap();
    assert_eq!(pool.dex, Dex::UniswapV4);
    assert_eq!(pool.fee, 3000);
    assert_eq!(pool.decimals1, 6);
    assert_eq!(address_bytes(pool.address)[..], found[0].pool_id[12..32]);
    assert!(pool_from_state(&found[0], U256::from_u128(0), 5, 3000).is_none());
    assert!(!keep_v4_pool(&pool, true));
    let rich = pool_from_state(&found[0], U256::from_u128(1 << 96), V4_MIN_LIQUIDITY, 3000).unwrap();
    assert!(keep_v4_pool(&rich, true));
    assert!(!keep_v4_pool(&rich, false));
}

#[test]
fn probe_keys_follow_pairs_fees_and_spacings() {
    let tokens = vec![addr(9), addr(3), addr(5)];
    let keys = v4_probe_keys(&tokens, &vec![500, 3000], &vec![10, 60]);
    // pairs (9,3), (9,5), (3,5); fee 500 takes spacing 10, fee 3000 both
    let got: Vec<(u64, u64, u32, i32)> =
        keys.iter().map(|k| (k.currency0.low, k.currency1.low, k.fee, k.tick_spacing)).collect();
    assert_eq!(
        got,
        vec![
            (3, 9, 500, 10), (3, 9, 3000, 10), (3, 9, 3000, 60),
            (5, 9, 500, 10), (5, 9, 3000, 10), (5, 9, 3000, 60),
            (3, 5, 500, 10), (3, 5, 3000, 10), (3, 5, 3000, 60),
        ]
    );
    assert!(keys.iter().all(|k| k.hooks == addr(0)));
    assert!(v4_probe_keys(&vec![addr(1)], &vec![500], &vec![10]).is_empty());
    // fee 100000 only goes with spacing 200
    assert_eq!(v4_probe_keys(&vec![addr(1), addr(2)], &vec![100_000], &vec![60, 200]).len(), 1);
}

#[test]
fn probed_pools() {
    let keys = v4_probe_keys(&vec![wmon_token(), usdc_token()], &vec![3000], &vec![60]);
    let id = probe_pool_id(&keys[0]);
    assert_eq!(id, expected_id(keys[0].currency0, keys[0].currency1, 3000, 60, addr(0)));
    assert!(slot0_usable(U256::from_u128(5), 3000));
    assert!(!slot0_usable(U256::from_u128(0), 3000));
    assert!(!slot0_usable(U256::from_u128(5), 0x80_0000));
    let p = probed_pool(&keys[0], &id, U256::from_u128(5), 3000, 42);
    assert_eq!(p.liquidity, U256::from_u128(42));
    assert_eq!(address_bytes(p.address)[..], id[12..32]);
}
