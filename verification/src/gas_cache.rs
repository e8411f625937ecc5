//! Spread-aware gas estimate cache.
//!
//! High spread means a volatile pool state and therefore stale gas
//! estimates, so entries recorded at higher spreads live for a shorter
//! time, entries recorded at a high spread are never stored, and an entry
//! is dropped as soon as the spread has grown by more than a threshold.

use std::collections::HashMap;
use vstd::prelude::*;

verus! {

broadcast use vstd::std_specs::hash::group_hash_axioms;

/// Time to live of an entry recorded at a low spread (milliseconds).
pub const GAS_CACHE_TTL_MS: u128 = 30_000;

/// Time to live of an entry recorded at a medium spread (milliseconds).
pub const GAS_CACHE_TTL_MEDIUM_MS: u128 = 10_000;

/// An entry is stale once the spread grew by more than this (bps).
pub const SPREAD_DELTA_THRESHOLD_BPS: i32 = 20;

/// Spreads below this are low (bps).
pub const LOW_SPREAD_BPS: i32 = 15;

/// Spreads below this (and not low) are medium; the rest are high (bps).
pub const MEDIUM_SPREAD_BPS: i32 = 30;

/// A cached gas estimate together with the spread it was captured at.
#[derive(Debug, Clone, Copy, PartialEq, Eq, Structural)]
pub struct GasCacheEntry {
    pub gas_estimate: u64,
    pub timestamp_ms: u128,
    /// Spread when this estimate was captured.
    pub spread_bps_at_cache: i32,
}

/// Where a cached gas limit came from.
#[derive(Debug, Clone, Copy, PartialEq, Eq, Structural)]
pub enum GasSource {
    Cached,
    CachedWithBuffer,
}

/// What to do about the gas limit of the next transaction.
#[derive(Debug, Clone, Copy, PartialEq, Eq, Structural)]
pub enum GasDecision {
    /// Use the cached estimate, already raised by a buffer.
    UseCached { gas_limit: u64, source: GasSource },
    /// Ask the node for a fresh estimate and add this buffer (percent).
    FetchFresh { buffer_percent: u64 },
}

/// A pair of routers (sell leg, buy leg) that a gas estimate belongs to.
#[derive(Debug, Clone, Copy, PartialEq, Eq, Hash, Structural)]
pub struct RouteKey {
    pub sell_router: u8,
    pub buy_router: u8,
}

/// The number under which a route is stored: one per router pair.
pub open spec fn route_id(route: RouteKey) -> u16 {
    (route.sell_router as int * 256 + route.buy_router as int) as u16
}

/// Two routes share a number only if they are the same route.
pub proof fn lemma_route_id_injective(a: RouteKey, b: RouteKey)
    ensures
        route_id(a) == route_id(b) <==> a == b,
{
}

impl RouteKey {
    pub fn new(sell_router: u8, buy_router: u8) -> (r: Self)
        ensures
            r.sell_router == sell_router,
            r.buy_router == buy_router,
    {
        RouteKey { sell_router, buy_router }
    }

    fn id(&self) -> (r: u16)
        ensures
            r == route_id(*self),
    {
        self.sell_router as u16 * 256 + self.buy_router as u16
    }
}

/// Time to live of an entry, chosen by the spread it was recorded at.
pub open spec fn spec_ttl_ms(spread_at_cache: i32) -> u128 {
    if spread_at_cache < LOW_SPREAD_BPS {
        GAS_CACHE_TTL_MS
    } else if spread_at_cache < MEDIUM_SPREAD_BPS {
        GAS_CACHE_TTL_MEDIUM_MS
    } else {
        0
    }
}

/// An entry is usable at time `now` (ms) for the current spread when it is
/// not older than its time to live (time is taken modulo 2^128, so a clock
/// that went backwards makes the entry stale) and the spread has not grown
/// by more than the threshold since it was recorded.
pub open spec fn spec_entry_valid(entry: GasCacheEntry, current_spread_bps: i32, now: u128) -> bool {
    &&& now.wrapping_sub(entry.timestamp_ms) <= spec_ttl_ms(entry.spread_bps_at_cache)
    &&& current_spread_bps - entry.spread_bps_at_cache <= SPREAD_DELTA_THRESHOLD_BPS
}

/// What a lookup of `route` at time `now` gives for the current spread.
pub open spec fn spec_lookup(
    m: Map<u16, GasCacheEntry>,
    route: RouteKey,
    current_spread_bps: i32,
    now: u128,
) -> Option<u64> {
    if m.contains_key(route_id(route)) && spec_entry_valid(
        m[route_id(route)],
        current_spread_bps,
        now,
    ) {
        Some(m[route_id(route)].gas_estimate)
    } else {
        None
    }
}

/// The cache after offering it an estimate taken at time `now`: estimates
/// taken at a high spread are not kept.
pub open spec fn spec_store(
    m: Map<u16, GasCacheEntry>,
    route: RouteKey,
    gas_estimate: u64,
    spread_bps: i32,
    now: u128,
) -> Map<u16, GasCacheEntry> {
    if spread_bps >= MEDIUM_SPREAD_BPS {
        m
    } else {
        m.insert(
            route_id(route),
            GasCacheEntry { gas_estimate, timestamp_ms: now, spread_bps_at_cache: spread_bps },
        )
    }
}

/// The decision for a spread, given what the cache holds for the route:
/// low spreads use the cache with an 8% buffer (else a fresh estimate with
/// 10%), medium spreads use it with 15% (else fresh with 15%), high spreads
/// always fetch fresh with 20%.
pub open spec fn spec_gas_decision(spread_bps: i32, cached: Option<u64>) -> GasDecision {
    if spread_bps < LOW_SPREAD_BPS {
        match cached {
            Some(c) => GasDecision::UseCached {
                gas_limit: (c * 108 / 100) as u64,
                source: GasSource::Cached,
            },
            None => GasDecision::FetchFresh { buffer_percent: 10 },
        }
    } else if spread_bps < MEDIUM_SPREAD_BPS {
        match cached {
            Some(c) => GasDecision::UseCached {
                gas_limit: (c * 115 / 100) as u64,
                source: GasSource::CachedWithBuffer,
            },
            None => GasDecision::FetchFresh { buffer_percent: 15 },
        }
    } else {
        GasDecision::FetchFresh { buffer_percent: 20 }
    }
}

/// A cached estimate can take the buffer the spread asks for without
/// overflow (8% below 15 bps, 15% below 30 bps; none is applied above).
pub open spec fn spec_buffer_fits(spread_bps: i32, c: u64) -> bool {
    if spread_bps < LOW_SPREAD_BPS {
        c * 108 <= u64::MAX
    } else if spread_bps < MEDIUM_SPREAD_BPS {
        c * 115 <= u64::MAX
    } else {
        true
    }
}

/// Every stored estimate can take the largest buffer without overflow.
pub open spec fn gas_estimates_bounded(m: Map<u16, GasCacheEntry>) -> bool {
    forall|k: u16| #[trigger] m.contains_key(k) ==> m[k].gas_estimate * 115 <= u64::MAX
}

/// The gas cache, keyed by route.
pub struct GasCache {
    entries: HashMap<u16, GasCacheEntry>,
}

impl View for GasCache {
    type V = Map<u16, GasCacheEntry>;

    closed spec fn view(&self) -> Map<u16, GasCacheEntry> {
        self.entries@
    }
}

/// Milliseconds since the Unix epoch (0 for a clock set before it).
#[verifier::external_body]
fn now_ms() -> u128 {
    match std::time::SystemTime::now().duration_since(std::time::UNIX_EPOCH) {
        Ok(d) => d.as_millis(),
        Err(_) => 0,
    }
}

/// Whether an entry may still be used at time `now`.
pub fn is_cache_valid_at(entry: &GasCacheEntry, current_spread_bps: i32, now: u128) -> (r: bool)
    ensures
        r == spec_entry_valid(*entry, current_spread_bps, now),
{
    let ttl = if entry.spread_bps_at_cache < LOW_SPREAD_BPS {
        GAS_CACHE_TTL_MS
    } else if entry.spread_bps_at_cache < MEDIUM_SPREAD_BPS {
        GAS_CACHE_TTL_MEDIUM_MS
    } else {
        0
    };
    if now.wrapping_sub(entry.timestamp_ms) > ttl {
        return false;
    }
    let spread_delta = current_spread_bps as i64 - entry.spread_bps_at_cache as i64;
    if spread_delta > SPREAD_DELTA_THRESHOLD_BPS as i64 {
        return false;
    }
    true
}

/// Whether an entry may still be used now.
pub fn is_cache_valid(entry: &GasCacheEntry, current_spread_bps: i32) -> (r: bool)
    ensures
        exists|now: u128| r == #[trigger] spec_entry_valid(*entry, current_spread_bps, now),
{
    let now = now_ms();
    is_cache_valid_at(entry, current_spread_bps, now)
}

impl GasCache {
    /// An empty cache.
    pub fn new() -> (r: Self)
        ensures
            r@ == Map::<u16, GasCacheEntry>::empty(),
    {
        GasCache { entries: HashMap::new() }
    }
}

/// The cached estimate for a route, if it is still valid at time `now`.
pub fn get_cached_gas_at(cache: &GasCache, route: &RouteKey, current_spread_bps: i32, now: u128) -> (r:
    Option<u64>)
    ensures
        r == spec_lookup(cache@, *route, current_spread_bps, now),
{
    let key = route.id();
    match cache.entries.get(&key) {
        Some(entry) => {
            if is_cache_valid_at(entry, current_spread_bps, now) {
                Some(entry.gas_estimate)
            } else {
                None
            }
        },
        None => None,
    }
}

/// The cached estimate for a route, if it is still valid now.
pub fn get_cached_gas(cache: &GasCache, route: &RouteKey, current_spread_bps: i32) -> (r: Option<u64>)
    ensures
        exists|now: u128| r == #[trigger] spec_lookup(cache@, *route, current_spread_bps, now),
{
    let now = now_ms();
    get_cached_gas_at(cache, route, current_spread_bps, now)
}

/// Store an estimate taken at time `now`, unless the spread is high.
pub fn cache_gas_estimate_at(
    cache: &mut GasCache,
    route: RouteKey,
    gas_estimate: u64,
    spread_bps: i32,
    now: u128,
)
    ensures
        final(cache)@ == spec_store(old(cache)@, route, gas_estimate, spread_bps, now),
{
    if spread_bps >= MEDIUM_SPREAD_BPS {
        return ;
    }
    let key = route.id();
    cache.entries.insert(
        key,
        GasCacheEntry { gas_estimate, timestamp_ms: now, spread_bps_at_cache: spread_bps },
    );
}

/// Store an estimate taken now, unless the spread is high.
pub fn cache_gas_estimate(cache: &mut GasCache, route: RouteKey, gas_estimate: u64, spread_bps: i32)
    ensures
        exists|now: u128|
            final(cache)@ == #[trigger] spec_store(old(cache)@, route, gas_estimate, spread_bps, now),
{
    let now = now_ms();
    cache_gas_estimate_at(cache, route, gas_estimate, spread_bps, now);
}

/// The gas decision for a route at time `now`.
pub fn gas_strategy_at(cache: &GasCache, spread_bps: i32, route: &RouteKey, now: u128) -> (r:
    GasDecision)
    requires
        spec_lookup(cache@, *route, spread_bps, now) matches Some(c) ==> spec_buffer_fits(spread_bps, c),
    ensures
        r == spec_gas_decision(spread_bps, spec_lookup(cache@, *route, spread_bps, now)),
{
    if spread_bps < MEDIUM_SPREAD_BPS {
        let cached = get_cached_gas_at(cache, route, spread_bps, now);
        match cached {
            Some(c) => {
                if spread_bps < LOW_SPREAD_BPS {
                    GasDecision::UseCached { gas_limit: c * 108 / 100, source: GasSource::Cached }
                } else {
                    GasDecision::UseCached {
                        gas_limit: c * 115 / 100,
                        source: GasSource::CachedWithBuffer,
                    }
                }
            },
            None => {
                if spread_bps < LOW_SPREAD_BPS {
                    GasDecision::FetchFresh { buffer_percent: 10 }
                } else {
                    GasDecision::FetchFresh { buffer_percent: 15 }
                }
            },
        }
    } else {
        GasDecision::FetchFresh { buffer_percent: 20 }
    }
}

/// The gas decision for a route now.
pub fn gas_strategy(cache: &GasCache, spread_bps: i32, route: &RouteKey) -> (r: GasDecision)
    requires
        cache@.contains_key(route_id(*route)) ==> spec_buffer_fits(
            spread_bps,
            cache@[route_id(*route)].gas_estimate,
        ),
    ensures
        exists|now: u128|
            r == spec_gas_decision(spread_bps, #[trigger] spec_lookup(cache@, *route, spread_bps, now)),
{
    let now = now_ms();
    gas_strategy_at(cache, spread_bps, route, now)
}

/// Forget every estimate.
pub fn clear_cache(cache: &mut GasCache)
    ensures
        final(cache)@ == Map::<u16, GasCacheEntry>::empty(),
{
    cache.entries.clear();
}


/// An estimate offered at a low or medium spread is found again by a lookup
/// for the same route at the same time and spread.
pub proof fn law_store_then_lookup(
    m: Map<u16, GasCacheEntry>,
    route: RouteKey,
    gas_estimate: u64,
    spread_bps: i32,
    now: u128,
)
    requires
        spread_bps < MEDIUM_SPREAD_BPS,
    ensures
        spec_lookup(spec_store(m, route, gas_estimate, spread_bps, now), route, spread_bps, now)
            == Some(gas_estimate),
{
    assert(now.wrapping_sub(now) == 0) by (bit_vector);
}

/// An estimate offered at a high spread leaves the cache as it was.
pub proof fn law_high_spread_not_stored(
    m: Map<u16, GasCacheEntry>,
    route: RouteKey,
    gas_estimate: u64,
    spread_bps: i32,
    now: u128,
)
    requires
        spread_bps >= MEDIUM_SPREAD_BPS,
    ensures
        spec_store(m, route, gas_estimate, spread_bps, now) == m,
{
}

/// Storing an estimate for one route does not change what another route
/// finds.
pub proof fn law_store_keeps_other_routes(
    m: Map<u16, GasCacheEntry>,
    route: RouteKey,
    other: RouteKey,
    gas_estimate: u64,
    spread_bps: i32,
    current_spread_bps: i32,
    now: u128,
    later: u128,
)
    requires
        route != other,
    ensures
        spec_lookup(spec_store(m, route, gas_estimate, spread_bps, now), other, current_spread_bps, later)
            == spec_lookup(m, other, current_spread_bps, later),
{
    lemma_route_id_injective(route, other);
}

/// A cleared (or new) cache finds nothing.
pub proof fn law_empty_cache_finds_nothing(route: RouteKey, current_spread_bps: i32, now: u128)
    ensures
        spec_lookup(Map::<u16, GasCacheEntry>::empty(), route, current_spread_bps, now) is None,
{
}

/// Once the spread has grown by more than the threshold since an entry was
/// recorded, the entry is stale whatever the time.
pub proof fn law_spread_growth_invalidates(entry: GasCacheEntry, current_spread_bps: i32, now: u128)
    requires
        current_spread_bps - entry.spread_bps_at_cache > SPREAD_DELTA_THRESHOLD_BPS,
    ensures
        !spec_entry_valid(entry, current_spread_bps, now),
{
}

/// High spreads always ask for a fresh estimate with a 20% buffer, whatever
/// the cache holds.
pub proof fn law_high_spread_fetches_fresh(spread_bps: i32, cached: Option<u64>)
    requires
        spread_bps >= MEDIUM_SPREAD_BPS,
    ensures
        spec_gas_decision(spread_bps, cached) == (GasDecision::FetchFresh { buffer_percent: 20 }),
{
}

/// A cached limit is never below the cached estimate.
pub proof fn law_cached_limit_covers_estimate(spread_bps: i32, c: u64)
    requires
        c * 115 <= u64::MAX,
    ensures
        spec_gas_decision(spread_bps, Some(c)) matches GasDecision::UseCached { gas_limit, .. }
            ==> gas_limit >= c,
{
}

/// Offering an estimate small enough for the largest buffer keeps every
/// stored estimate within bounds.
pub proof fn law_store_keeps_bounded(
    m: Map<u16, GasCacheEntry>,
    route: RouteKey,
    gas_estimate: u64,
    spread_bps: i32,
    now: u128,
)
    requires
        gas_estimates_bounded(m),
        gas_estimate * 115 <= u64::MAX,
    ensures
        gas_estimates_bounded(spec_store(m, route, gas_estimate, spread_bps, now)),
{
}

/// The priority fee for a spread: a tenth of the base gas price, plus one
/// gwei for every full ten bps of spread.
pub open spec fn spec_priority_fee(base_gas_price: int, spread_bps: int) -> int {
    base_gas_price / 10 + (spread_bps / 10) * 1_000_000_000
}

/// Returns `(max_fee, priority_fee)`: when spreads are high other bots are
/// competing, so the priority fee grows with the spread.
pub fn calculate_gas_price(base_gas_price: u128, spread_bps: i32) -> (r: (u128, u128))
    requires
        spread_bps >= 0,
        base_gas_price + spec_priority_fee(base_gas_price as int, spread_bps as int) <= u128::MAX,
    ensures
        r.1 == spec_priority_fee(base_gas_price as int, spread_bps as int),
        r.0 == base_gas_price + r.1,
{
    let base_priority = base_gas_price / 10;
    let spread = spread_bps as u128;
    let priority_boost = (spread / 10) * 1_000_000_000;
    let priority_fee = base_priority + priority_boost;
    let max_fee = base_gas_price + priority_fee;
    (max_fee, priority_fee)
}

/// An entry lives as long as the spread it was recorded at allows, whatever
/// the spread is when it is looked up: 30 s when recorded below 15 bps,
/// 10 s when recorded from 15 to 30 bps, not at all above. Within that
/// time it stays usable unless the spread has grown by more than the
/// threshold since.
pub proof fn law_entry_lifetime(entry: GasCacheEntry, current_spread_bps: i32, now: u128)
    requires
        entry.timestamp_ms <= now,
    ensures
        entry.spread_bps_at_cache < LOW_SPREAD_BPS && now - entry.timestamp_ms > GAS_CACHE_TTL_MS ==> !spec_entry_valid(
            entry,
            current_spread_bps,
            now,
        ),
        LOW_SPREAD_BPS <= entry.spread_bps_at_cache < MEDIUM_SPREAD_BPS && now - entry.timestamp_ms
            > GAS_CACHE_TTL_MEDIUM_MS ==> !spec_entry_valid(entry, current_spread_bps, now),
        entry.spread_bps_at_cache >= MEDIUM_SPREAD_BPS && now > entry.timestamp_ms ==> !spec_entry_valid(
            entry,
            current_spread_bps,
            now,
        ),
        entry.spread_bps_at_cache < LOW_SPREAD_BPS && now - entry.timestamp_ms <= GAS_CACHE_TTL_MS
            && current_spread_bps - entry.spread_bps_at_cache <= SPREAD_DELTA_THRESHOLD_BPS ==> spec_entry_valid(
            entry,
            current_spread_bps,
            now,
        ),
        LOW_SPREAD_BPS <= entry.spread_bps_at_cache < MEDIUM_SPREAD_BPS && now - entry.timestamp_ms
            <= GAS_CACHE_TTL_MEDIUM_MS && current_spread_bps - entry.spread_bps_at_cache
            <= SPREAD_DELTA_THRESHOLD_BPS ==> spec_entry_valid(entry, current_spread_bps, now),
        entry.spread_bps_at_cache >= MEDIUM_SPREAD_BPS && now == entry.timestamp_ms && current_spread_bps
            - entry.spread_bps_at_cache <= SPREAD_DELTA_THRESHOLD_BPS ==> spec_entry_valid(entry, current_spread_bps, now),
        current_spread_bps - entry.spread_bps_at_cache > SPREAD_DELTA_THRESHOLD_BPS ==> !spec_entry_valid(
            entry,
            current_spread_bps,
            now,
        ),
{
    assert(now.wrapping_sub(entry.timestamp_ms) == now - entry.timestamp_ms);
}

} // verus!
