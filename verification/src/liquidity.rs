//! Pool liquidity: the trade sizes a pool takes for a given slippage and
//! the price impact a trade is expected to have.
//!
//! The chain reads (liquidity, ticks, bin reserves) are made by the caller;
//! the functions here turn what was read into a `LiquidityInfo` and judge
//! trades against it.

use crate::address::Address;
use crate::dex::Dex;
use crate::text::{push_str, spec_decimal};
use crate::uint::{lemma_value_bounds, u256_add, u256_div, u256_lt, u256_modulus, u256_to_decimal, U256};
use std::sync::Arc;
use vstd::prelude::*;

verus! {

/// Liquidity of one pool and the trade sizes it takes.
#[derive(Debug, Clone, Copy, PartialEq, Eq)]
pub struct LiquidityInfo {
    pub pool_address: Address,
    pub dex: Dex,
    /// Total liquidity in the pool (raw value).
    pub total_liquidity: U256,
    /// Largest trade for under 0.5% price impact.
    pub max_trade_05pct_slippage: U256,
    /// Largest trade for under 1% price impact.
    pub max_trade_1pct_slippage: U256,
    /// Largest trade for under 2% price impact.
    pub max_trade_2pct_slippage: U256,
    /// Current tick (V3-style pools).
    pub current_tick: Option<i32>,
    /// Active bin (LFJ pools).
    pub active_bin_id: Option<u32>,
}

/// Reads pool liquidity through a chain provider.
pub struct LiquidityAnalyzer<P> {
    provider: Arc<P>,
}

impl<P> LiquidityAnalyzer<P> {
    /// The provider the analyzer reads through.
    pub closed spec fn provider(&self) -> &P {
        &*self.provider
    }

    pub fn new(provider: P) -> (r: Self)
        ensures
            *r.provider() == provider,
    {
        LiquidityAnalyzer { provider: Arc::new(provider) }
    }

    /// The price impact (bps) of a trade: its size against the liquidity
    /// (10000 when the pool is empty or the product overflows), weighted by
    /// the DEX (LFJ 50%, Uniswap V4 75%, others in full) and capped at
    /// 10000.
    pub fn estimate_price_impact(&self, trade_size: U256, liquidity: &LiquidityInfo) -> (r: u32)
        requires
            spec_impact_ok(trade_size, liquidity.total_liquidity, liquidity.dex),
        ensures
            r == spec_price_impact(trade_size, liquidity.total_liquidity, liquidity.dex),
    {
        estimate_price_impact(trade_size, liquidity)
    }

    /// Whether a trade stays within a slippage tolerance.
    pub fn is_trade_viable(&self, trade_size: U256, liquidity: &LiquidityInfo, max_slippage_bps: u32) -> (r: bool)
        requires
            spec_impact_ok(trade_size, liquidity.total_liquidity, liquidity.dex),
        ensures
            r == (spec_price_impact(trade_size, liquidity.total_liquidity, liquidity.dex)
                <= max_slippage_bps),
    {
        estimate_price_impact(trade_size, liquidity) <= max_slippage_bps
    }

    /// The trade size for a slippage target: up to 50 bps the 0.5% size,
    /// up to 100 bps the 1% size, above that the 2% size.
    pub fn recommended_trade_size(&self, liquidity: &LiquidityInfo, target_slippage_bps: u32) -> (r: U256)
        ensures
            r == spec_recommended_size(*liquidity, target_slippage_bps),
    {
        if target_slippage_bps <= 50 {
            liquidity.max_trade_05pct_slippage
        } else if target_slippage_bps <= 100 {
            liquidity.max_trade_1pct_slippage
        } else {
            liquidity.max_trade_2pct_slippage
        }
    }
}

/// The trade size recommended for a slippage target.
pub open spec fn spec_recommended_size(l: LiquidityInfo, target_slippage_bps: u32) -> U256 {
    if target_slippage_bps <= 50 {
        l.max_trade_05pct_slippage
    } else if target_slippage_bps <= 100 {
        l.max_trade_1pct_slippage
    } else {
        l.max_trade_2pct_slippage
    }
}

/// The weight (percent) of a DEX in the price impact.
pub open spec fn spec_impact_multiplier(dex: Dex) -> int {
    match dex {
        Dex::LFJ => 50,
        Dex::UniswapV4 => 75,
        _ => 100,
    }
}

/// Trade size against liquidity in bps, or 10000 when the product with
/// 10000 does not fit 256 bits.
pub open spec fn spec_impact_ratio(trade_size: U256, total: U256) -> int {
    if trade_size.value() * 10000 < u256_modulus() {
        trade_size.value() * 10000 / total.value()
    } else {
        10000
    }
}

/// The price impact (bps) of a trade on a pool.
pub open spec fn spec_price_impact(trade_size: U256, total: U256, dex: Dex) -> u32 {
    if total.value() == 0 {
        10000
    } else {
        let v = spec_impact_ratio(trade_size, total) * spec_impact_multiplier(dex) / 100;
        (if v < 10000 { v } else { 10000 }) as u32
    }
}

/// The inputs on which the impact is computed without a panic: the ratio
/// fits 32 bits, and so does its product with the DEX weight.
pub open spec fn spec_impact_ok(trade_size: U256, total: U256, dex: Dex) -> bool {
    total.value() != 0 ==> spec_impact_ratio(trade_size, total) * spec_impact_multiplier(dex)
        <= u32::MAX
}

/// The price impact (bps) of a trade on a pool.
pub fn estimate_price_impact(trade_size: U256, liquidity: &LiquidityInfo) -> (r: u32)
    requires
        spec_impact_ok(trade_size, liquidity.total_liquidity, liquidity.dex),
    ensures
        r == spec_price_impact(trade_size, liquidity.total_liquidity, liquidity.dex),
{
    let total = liquidity.total_liquidity;
    if !u256_lt(U256::zero(), total) {
        return 10000;
    }
    proof {
        lemma_value_bounds(trade_size);
        lemma_value_bounds(total);
    }
    let ratio: u32 = match crate::uint::u256_checked_mul(trade_size, U256::from_u64(10000)) {
        Some(n) => {
            let q = u256_div(n, total);
            proof {
                assert(q.value() == trade_size.value() * 10000 / total.value());
                assert(q.value() <= u32::MAX) by {
                    assert(spec_impact_multiplier(liquidity.dex) >= 1);
                    assert(q.value() * 1 <= q.value() * spec_impact_multiplier(liquidity.dex)) by (nonlinear_arith)
                        requires
                            q.value() >= 0,
                            spec_impact_multiplier(liquidity.dex) >= 1,
                    ;
                }
            }
            match q.to_u128() {
                Some(v) => v as u32,
                None => 10000,
            }
        },
        None => 10000,
    };
    let multiplier: u32 = match liquidity.dex {
        Dex::LFJ => 50,
        Dex::UniswapV4 => 75,
        _ => 100,
    };
    let v = ratio * multiplier / 100;
    if v < 10000 {
        v
    } else {
        10000
    }
}

/// The trade sizes of a V3-style pool: 0.5%, 1% and 2% of its liquidity
/// for the 0.5%, 1% and 2% slippage levels.
pub fn v3_liquidity_info(pool_address: Address, dex: Dex, liquidity: u128, tick: i32) -> (r: LiquidityInfo)
    ensures
        r.pool_address == pool_address,
        r.dex == dex,
        r.total_liquidity.value() == liquidity,
        r.max_trade_05pct_slippage.value() == liquidity / 200,
        r.max_trade_1pct_slippage.value() == liquidity / 100,
        r.max_trade_2pct_slippage.value() == liquidity / 50,
        r.current_tick == Some(tick),
        r.active_bin_id is None,
{
    let total = crate::uint::u256_from_u128(liquidity);
    LiquidityInfo {
        pool_address,
        dex,
        total_liquidity: total,
        max_trade_05pct_slippage: u256_div(total, U256::from_u64(200)),
        max_trade_1pct_slippage: u256_div(total, U256::from_u64(100)),
        max_trade_2pct_slippage: u256_div(total, U256::from_u64(50)),
        current_tick: Some(tick),
        active_bin_id: None,
    }
}

/// A Uniswap V4 pool (known by its id, so the address is zero) has the
/// V3 trade sizes.
pub fn v4_liquidity_info(liquidity: u128, tick: i32) -> (r: LiquidityInfo)
    ensures
        r.pool_address == (Address { high: 0, mid: 0, low: 0 }),
        r.dex == Dex::UniswapV4,
        r.total_liquidity.value() == liquidity,
        r.max_trade_05pct_slippage.value() == liquidity / 200,
        r.max_trade_1pct_slippage.value() == liquidity / 100,
        r.max_trade_2pct_slippage.value() == liquidity / 50,
        r.current_tick == Some(tick),
        r.active_bin_id is None,
{
    v3_liquidity_info(Address { high: 0, mid: 0, low: 0 }, Dex::UniswapV4, liquidity, tick)
}

/// Kuru pools are not read: no liquidity at all.
pub fn kuru_liquidity_info(pool_address: Address) -> (r: LiquidityInfo)
    ensures
        r.pool_address == pool_address,
        r.dex == Dex::Kuru,
        r.total_liquidity.value() == 0,
        r.max_trade_05pct_slippage.value() == 0,
        r.max_trade_1pct_slippage.value() == 0,
        r.max_trade_2pct_slippage.value() == 0,
        r.current_tick is None,
        r.active_bin_id is None,
{
    LiquidityInfo {
        pool_address,
        dex: Dex::Kuru,
        total_liquidity: U256::zero(),
        max_trade_05pct_slippage: U256::zero(),
        max_trade_1pct_slippage: U256::zero(),
        max_trade_2pct_slippage: U256::zero(),
        current_tick: None,
        active_bin_id: None,
    }
}

/// Bins read on each side of the active LFJ bin.
pub const LFJ_BIN_RADIUS: i32 = 10;

/// The LFJ bin `k` places from the lowest one read: the active bin moved
/// by `k - 10`, as a signed number taken back to unsigned.
pub open spec fn spec_lfj_bin_id(active_id: u32, k: int) -> u32 {
    (((active_id as i32) as int + k - 10) as i32) as u32
}

/// The bins around the active one that an LFJ read covers: ten on each
/// side and the active bin, lowest first.
pub fn lfj_bin_ids(active_id: u32) -> (r: Vec<u32>)
    requires
        (active_id as i32) as int + 10 <= i32::MAX,
        (active_id as i32) as int - 10 >= i32::MIN,
    ensures
        r@.len() == 21,
        forall|k: int| 0 <= k < 21 ==> #[trigger] r@[k] == spec_lfj_bin_id(active_id, k),
{
    let base = active_id as i32;
    let mut r: Vec<u32> = Vec::new();
    let mut offset: i32 = -LFJ_BIN_RADIUS;
    while offset <= LFJ_BIN_RADIUS
        invariant
            base == active_id as i32,
            base as int + 10 <= i32::MAX,
            base as int - 10 >= i32::MIN,
            -10 <= offset <= 11,
            r@.len() == offset + 10,
            forall|k: int| 0 <= k < r@.len() ==> #[trigger] r@[k] == spec_lfj_bin_id(active_id, k),
        decreases 11 - offset,
    {
        r.push((base + offset) as u32);
        offset = offset + 1;
    }
    r
}

/// The sum of the present reserves of one side of the bins read (a bin
/// that could not be read counts for nothing), wrapping at 2^256.
pub open spec fn spec_reserve_sum(bins: Seq<Option<(u128, u128)>>, x_side: bool) -> int
    decreases bins.len(),
{
    if bins.len() == 0 {
        0
    } else {
        let last = match bins.last() {
            Some((x, y)) => if x_side { x as int } else { y as int },
            None => 0,
        };
        (spec_reserve_sum(bins.drop_last(), x_side) + last) % u256_modulus()
    }
}

/// The liquidity of an LFJ pool from the reserves of the bins around the
/// active one: X and Y reserves together; trade sizes 1%, 2% and 4% of it,
/// since bins keep slippage lower than V3 ticks.
pub fn lfj_liquidity_info(pool_address: Address, active_id: u32, bins: &Vec<Option<(u128, u128)>>) -> (r:
    LiquidityInfo)
    ensures
        r.pool_address == pool_address,
        r.dex == Dex::LFJ,
        r.total_liquidity.value() == (spec_reserve_sum(bins@, true) + spec_reserve_sum(bins@, false))
            % u256_modulus(),
        r.max_trade_05pct_slippage.value() == r.total_liquidity.value() / 100,
        r.max_trade_1pct_slippage.value() == r.total_liquidity.value() / 50,
        r.max_trade_2pct_slippage.value() == r.total_liquidity.value() / 25,
        r.current_tick is None,
        r.active_bin_id == Some(active_id),
{
    let mut total_x = U256::zero();
    let mut total_y = U256::zero();
    let mut i: usize = 0;
    while i < bins.len()
        invariant
            i <= bins@.len(),
            total_x.value() == spec_reserve_sum(bins@.take(i as int), true),
            total_y.value() == spec_reserve_sum(bins@.take(i as int), false),
        decreases bins.len() - i,
    {
        proof {
            assert(bins@.take(i + 1).drop_last() == bins@.take(i as int));
            assert(bins@.take(i + 1).last() == bins@[i as int]);
        }
        match bins[i] {
            Some((x, y)) => {
                total_x = u256_add(total_x, crate::uint::u256_from_u128(x));
                total_y = u256_add(total_y, crate::uint::u256_from_u128(y));
            },
            None => {},
        }
        i = i + 1;
    }
    assert(bins@.take(bins@.len() as int) == bins@);
    let total = u256_add(total_x, total_y);
    LiquidityInfo {
        pool_address,
        dex: Dex::LFJ,
        total_liquidity: total,
        max_trade_05pct_slippage: u256_div(total, U256::from_u64(100)),
        max_trade_1pct_slippage: u256_div(total, U256::from_u64(50)),
        max_trade_2pct_slippage: u256_div(total, U256::from_u64(25)),
        current_tick: None,
        active_bin_id: Some(active_id),
    }
}

/// The smallest of a list of amounts, 2^256 - 1 for an empty list.
pub open spec fn spec_min_liquidity(s: Seq<U256>) -> int
    decreases s.len(),
{
    if s.len() == 0 {
        u256_modulus() - 1
    } else {
        let m = spec_min_liquidity(s.drop_last());
        if s.last().value() < m {
            s.last().value()
        } else {
            m
        }
    }
}

/// The bottleneck of a path: the least liquidity among its pools.
pub fn path_min_liquidity(liquidities: &Vec<U256>) -> (r: U256)
    ensures
        r.value() == spec_min_liquidity(liquidities@),
{
    let mut min = U256::max_value();
    let mut i: usize = 0;
    while i < liquidities.len()
        invariant
            i <= liquidities@.len(),
            min.value() == spec_min_liquidity(liquidities@.take(i as int)),
        decreases liquidities.len() - i,
    {
        proof {
            assert(liquidities@.take(i + 1).drop_last() == liquidities@.take(i as int));
            assert(liquidities@.take(i + 1).last() == liquidities@[i as int]);
        }
        if u256_lt(liquidities[i], min) {
            min = liquidities[i];
        }
        i = i + 1;
    }
    assert(liquidities@.take(liquidities@.len() as int) == liquidities@);
    min
}

/// "`amount`M", "`amount`K" or "`amount`" in whole tokens.
pub open spec fn spec_liquidity_amount(total: int) -> Seq<char> {
    if total > 1_000_000_000_000_000_000_000_000 {
        spec_decimal((total / 1_000_000_000_000_000_000_000_000) as nat) + "M"@
    } else if total > 1_000_000_000_000_000_000_000 {
        spec_decimal((total / 1_000_000_000_000_000_000_000) as nat) + "K"@
    } else {
        spec_decimal((total / 1_000_000_000_000_000_000) as nat)
    }
}

impl LiquidityInfo {
    /// "`amount` liquidity (max 1% slippage trade: `size`)", amounts in whole
    /// 18-decimal tokens, large ones in thousands (K) or millions (M).
    pub fn description(&self) -> (r: String)
        ensures
            r@ == spec_liquidity_amount(self.total_liquidity.value()) + " liquidity (max 1% slippage trade: "@
                + spec_decimal((self.max_trade_1pct_slippage.value() / 1_000_000_000_000_000_000) as nat) + ")"@,
    {
        let million = U256::from_u128(1_000_000_000_000_000_000_000_000);
        let thousand = U256::from_u128(1_000_000_000_000_000_000_000);
        let one = U256::from_u128(1_000_000_000_000_000_000);
        proof {
            lemma_value_bounds(self.total_liquidity);
            lemma_value_bounds(self.max_trade_1pct_slippage);
        }
        let mut s = if u256_lt(million, self.total_liquidity) {
            let mut t = u256_to_decimal(u256_div(self.total_liquidity, million));
            push_str(&mut t, "M");
            t
        } else if u256_lt(thousand, self.total_liquidity) {
            let mut t = u256_to_decimal(u256_div(self.total_liquidity, thousand));
            push_str(&mut t, "K");
            t
        } else {
            u256_to_decimal(u256_div(self.total_liquidity, one))
        };
        push_str(&mut s, " liquidity (max 1% slippage trade: ");
        let size = u256_to_decimal(u256_div(self.max_trade_1pct_slippage, one));
        push_str(&mut s, size.as_str());
        push_str(&mut s, ")");
        s
    }

    /// Whether the pool holds at least `min_liquidity`.
    pub fn has_sufficient_liquidity(&self, min_liquidity: U256) -> (r: bool)
        ensures
            r == (self.total_liquidity.value() >= min_liquidity.value()),
    {
        !u256_lt(self.total_liquidity, min_liquidity)
    }
}

/// Price impact grows with trade size: on the same pool a larger trade is
/// never judged to move the price less, as long as neither product with
/// 10000 overflows.
pub proof fn law_impact_monotone(a: U256, b: U256, total: U256, dex: Dex)
    requires
        a.value() <= b.value(),
        b.value() * 10000 < u256_modulus(),
    ensures
        spec_price_impact(a, total, dex) <= spec_price_impact(b, total, dex),
{
    lemma_value_bounds(a);
    lemma_value_bounds(b);
    lemma_value_bounds(total);
    if total.value() != 0 {
        let ra = a.value() * 10000 / total.value();
        let rb = b.value() * 10000 / total.value();
        assert(a.value() * 10000 <= b.value() * 10000) by (nonlinear_arith)
            requires
                a.value() <= b.value(),
        ;
        assert(ra <= rb) by (nonlinear_arith)
            requires
                a.value() * 10000 <= b.value() * 10000,
                total.value() > 0,
                ra == a.value() * 10000 / total.value(),
                rb == b.value() * 10000 / total.value(),
        ;
        let m = spec_impact_multiplier(dex);
        assert(ra * m / 100 <= rb * m / 100) by (nonlinear_arith)
            requires
                0 <= ra <= rb,
                m >= 0,
        ;
    }
}

/// The price impact is never above 10000 bps.
pub proof fn law_impact_at_most_full(trade_size: U256, total: U256, dex: Dex)
    ensures
        spec_price_impact(trade_size, total, dex) <= 10000,
{
    lemma_value_bounds(trade_size);
    lemma_value_bounds(total);
    if total.value() != 0 {
        let r = spec_impact_ratio(trade_size, total);
        assert(r >= 0) by (nonlinear_arith)
            requires
                r == (if trade_size.value() * 10000 < u256_modulus() {
                    trade_size.value() * 10000 / total.value()
                } else {
                    10000
                }),
                trade_size.value() >= 0,
                total.value() > 0,
        ;
        assert(r * spec_impact_multiplier(dex) / 100 >= 0) by (nonlinear_arith)
            requires
                r >= 0,
                spec_impact_multiplier(dex) >= 0,
        ;
    }
}

} // verus!
