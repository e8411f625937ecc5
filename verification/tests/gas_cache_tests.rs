use monad_arb::gas_cache::{
    cache_gas_estimate_at, calculate_gas_price, clear_cache, gas_strategy, gas_strategy_at,
    get_cached_gas_at, is_cache_valid_at, GasCache, GasCacheEntry, GasDecision, GasSource, RouteKey,
};

#[test]
fn test_gas_strategy_low_spread() {
    let cache = GasCache::new();
    let route = RouteKey::new(0, 1);
    let decision = gas_strategy(&cache, 10, &route);

    match decision {
        GasDecision::FetchFresh { buffer_percent } => {
            assert_eq!(buffer_percent, 10);
        }
        _ => panic!("Expected FetchFresh for low spread with no cache"),
    }
}

#[test]
fn test_gas_strategy_high_spread() {
    let cache = GasCache::new();
    let route = RouteKey::new(0, 1);
    let decision = gas_strategy(&cache, 50, &route);

    match decision {
        GasDecision::FetchFresh { buffer_percent } => {
            assert_eq!(buffer_percent, 20);
        }
        _ => panic!("Expected FetchFresh for high spread"),
    }
}

#[test]
fn test_calculate_gas_price() {
    let base = 1_000_000_000u128;
    let (max_fee, priority) = calculate_gas_price(base, 30);

    assert_eq!(priority, 100_000_000 + 3_000_000_000);
    assert_eq!(max_fee, base + priority);
}

#[test]
fn cached_estimate_is_used_at_low_spread() {
    let mut cache = GasCache::new();
    let route = RouteKey::new(1, 2);
    cache_gas_estimate_at(&mut cache, route, 200_000, 10, 1_000);
    assert_eq!(get_cached_gas_at(&cache, &route, 12, 2_000), Some(200_000));
    match gas_strategy_at(&cache, 10, &route, 2_000) {
        GasDecision::UseCached { gas_limit, source } => {
            assert_eq!(gas_limit, 216_000);
            assert_eq!(source, GasSource::Cached);
        }
        _ => panic!("expected the cached estimate"),
    }
}

#[test]
fn cached_estimate_medium_spread_gets_buffer() {
    let mut cache = GasCache::new();
    let route = RouteKey::new(1, 2);
    cache_gas_estimate_at(&mut cache, route, 200_000, 20, 1_000);
    match gas_strategy_at(&cache, 20, &route, 2_000) {
        GasDecision::UseCached { gas_limit, source } => {
            assert_eq!(gas_limit, 230_000);
            assert_eq!(source, GasSource::CachedWithBuffer);
        }
        _ => panic!("expected the buffered cached estimate"),
    }
}

#[test]
fn cache_entry_expires() {
    let entry = GasCacheEntry { gas_estimate: 100, timestamp_ms: 0, spread_bps_at_cache: 10 };
    assert!(is_cache_valid_at(&entry, 10, 30_000));
    assert!(!is_cache_valid_at(&entry, 10, 30_001));
    // a spread that moved by more than 20 bps invalidates the entry
    assert!(!is_cache_valid_at(&entry, 31, 1));
}

#[test]
fn high_spread_is_never_cached() {
    let mut cache = GasCache::new();
    let route = RouteKey::new(3, 4);
    cache_gas_estimate_at(&mut cache, route, 250_000, 40, 5);
    assert_eq!(get_cached_gas_at(&cache, &route, 40, 6), None);
}

#[test]
fn clear_cache_forgets_everything() {
    let mut cache = GasCache::new();
    let route = RouteKey::new(0, 1);
    cache_gas_estimate_at(&mut cache, route, 200_000, 5, 1);
    clear_cache(&mut cache);
    assert_eq!(get_cached_gas_at(&cache, &route, 5, 2), None);
}

#[test]
fn gas_price_for_negative_spread() {
    let (max_fee, priority) = calculate_gas_price(1_000_000_000, 5);
    assert_eq!(priority, 100_000_000);
    assert_eq!(max_fee, 1_100_000_000);
}
