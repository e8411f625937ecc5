//! Swap quotes: what a quoter's answer becomes for each kind of pool, and
//! how the quotes of a path are chained, each hop taking the previous
//! hop's output.
//!
//! The quoter calls themselves are the caller's work; the functions here
//! take their results.

use crate::address::Address;
use crate::dex::Dex;
use crate::simulation::PoolInfo;
use crate::uint::{u256_add, u256_div, u256_modulus, u256_mul, U256};
use std::sync::Arc;
use vstd::prelude::*;

verus! {

/// The answer of one pool's quoter, as the simulation uses it.
#[derive(Debug, Clone, Copy, PartialEq, Eq)]
pub struct PoolQuote {
    pub pool_address: Address,
    pub dex: Dex,
    pub token_in: Address,
    pub token_out: Address,
    pub amount_in: U256,
    pub amount_out: U256,
    /// Fee paid, in the input token.
    pub fee_paid: U256,
    /// Fee in basis points.
    pub fee_bps: u32,
    /// Pool liquidity when quoted.
    pub liquidity: U256,
    /// sqrt price after the swap (V3-style pools).
    pub sqrt_price_after: Option<U256>,
    /// Gas the swap is expected to take.
    pub gas_estimate: u64,
}

/// The quotes of several pools taken at one block.
#[derive(Debug, Clone)]
pub struct AtomicQuote {
    pub block_number: u64,
    /// Timestamp of the block.
    pub timestamp: u64,
    pub quotes: Vec<PoolQuote>,
    /// Gas of all the swaps together.
    pub total_gas_estimate: u64,
}

/// Fetches quotes through a chain provider.
pub struct QuoteFetcher<P> {
    provider: Arc<P>,
}

impl<P> QuoteFetcher<P> {
    /// The provider the fetcher reads through.
    pub closed spec fn provider(&self) -> &P {
        &*self.provider
    }

    pub fn new(provider: P) -> (r: Self)
        ensures
            *r.provider() == provider,
    {
        QuoteFetcher { provider: Arc::new(provider) }
    }
}

/// Which quoter a pool is asked through.
#[derive(Debug, Clone, Copy, PartialEq, Eq, Structural)]
pub enum QuoteRoute {
    /// QuoterV2 of Uniswap V3, or of PancakeSwap V3.
    V3 { pancakeswap: bool },
    /// `getSwapOut` of the LFJ pair.
    Lfj,
    /// The Uniswap V4 quoter.
    V4,
    /// No quoter (Kuru): quoting fails.
    Unsupported,
}

/// The quoter of a DEX.
pub open spec fn spec_quote_route(dex: Dex) -> QuoteRoute {
    match dex {
        Dex::UniswapV3 => QuoteRoute::V3 { pancakeswap: false },
        Dex::PancakeSwapV3 => QuoteRoute::V3 { pancakeswap: true },
        Dex::LFJ => QuoteRoute::Lfj,
        Dex::UniswapV4 => QuoteRoute::V4,
        Dex::Kuru => QuoteRoute::Unsupported,
    }
}

/// The quoter to ask for a pool of this DEX.
pub fn quote_route(dex: Dex) -> (r: QuoteRoute)
    ensures
        r == spec_quote_route(dex),
{
    match dex {
        Dex::UniswapV3 => QuoteRoute::V3 { pancakeswap: false },
        Dex::PancakeSwapV3 => QuoteRoute::V3 { pancakeswap: true },
        Dex::LFJ => QuoteRoute::Lfj,
        Dex::UniswapV4 => QuoteRoute::V4,
        Dex::Kuru => QuoteRoute::Unsupported,
    }
}

/// Input and output token of a swap through the pool, by its direction.
pub open spec fn spec_swap_tokens(pool: PoolInfo) -> (Address, Address) {
    if pool.zero_for_one {
        (pool.token0, pool.token1)
    } else {
        (pool.token1, pool.token0)
    }
}

/// Input and output token of a swap through the pool.
pub fn swap_tokens(pool: &PoolInfo) -> (r: (Address, Address))
    ensures
        r == spec_swap_tokens(*pool),
{
    if pool.zero_for_one {
        (pool.token0, pool.token1)
    } else {
        (pool.token1, pool.token0)
    }
}

/// The fee a V3-style pool takes of an input: `amount_in * fee / 1e6`,
/// the product wrapping at 2^256.
pub open spec fn spec_v3_fee_paid(amount_in: U256, fee: u32) -> int {
    ((amount_in.value() * fee) % u256_modulus()) / 1_000_000
}

fn v3_fee_paid(amount_in: U256, fee: u32) -> (r: U256)
    ensures
        r.value() == spec_v3_fee_paid(amount_in, fee),
{
    u256_div(u256_mul(amount_in, U256::from_u64(fee as u64)), U256::from_u64(1_000_000))
}

/// The quote of a Uniswap V3 or PancakeSwap V3 pool from its QuoterV2
/// answer: the fee tier in bps is the raw fee over 100.
pub fn v3_quote(
    pool: &PoolInfo,
    amount_in: U256,
    amount_out: U256,
    sqrt_price_after: U256,
    gas_estimate: U256,
) -> (r: PoolQuote)
    requires
        gas_estimate.value() <= u64::MAX,
    ensures
        r.pool_address == pool.address,
        r.dex == pool.dex,
        (r.token_in, r.token_out) == spec_swap_tokens(*pool),
        r.amount_in == amount_in,
        r.amount_out == amount_out,
        r.fee_paid.value() == spec_v3_fee_paid(amount_in, pool.fee),
        r.fee_bps == pool.fee / 100,
        r.liquidity == pool.liquidity,
        r.sqrt_price_after == Some(sqrt_price_after),
        r.gas_estimate == gas_estimate.value(),
{
    let (token_in, token_out) = swap_tokens(pool);
    let gas: u64 = match gas_estimate.to_u128() {
        Some(g) => g as u64,
        None => 0,
    };
    PoolQuote {
        pool_address: pool.address,
        dex: pool.dex,
        token_in,
        token_out,
        amount_in,
        amount_out,
        fee_paid: v3_fee_paid(amount_in, pool.fee),
        fee_bps: pool.fee / 100,
        liquidity: pool.liquidity,
        sqrt_price_after: Some(sqrt_price_after),
        gas_estimate: gas,
    }
}

/// Gas assumed for an LFJ swap.
pub const LFJ_SWAP_GAS: u64 = 150_000;

/// Whether the LFJ swap goes from token X to token Y: it does when the
/// pool's direction and the pair's token order agree.
pub fn lfj_swap_for_y(pool: &PoolInfo, token_x: Address) -> (r: bool)
    ensures
        r == (pool.zero_for_one == (pool.token0 == token_x)),
{
    pool.zero_for_one == (pool.token0 == token_x)
}

/// The input of an LFJ quote, which takes 128 bits: larger amounts are
/// cut to the largest `u128`.
pub fn lfj_amount_in(amount_in: U256) -> (r: u128)
    ensures
        r == if amount_in.value() <= u128::MAX {
            amount_in.value()
        } else {
            u128::MAX as int
        },
{
    match amount_in.to_u128() {
        Some(v) => v,
        None => u128::MAX,
    }
}

/// The effective fee (bps) of an LFJ swap that took `fee` of `amount_in`:
/// `fee * 10000` (saturating) over the input, cut to 32 bits.
pub open spec fn spec_lfj_quote_fee_bps(fee: u128, amount_in: u128) -> u32 {
    if amount_in > 0 {
        let num = if fee * 10000 <= u128::MAX {
            fee * 10000
        } else {
            u128::MAX as int
        };
        (num / (amount_in as int)) as u32
    } else {
        0
    }
}

/// The effective fee (bps) of an LFJ swap.
pub fn lfj_quote_fee_bps(fee: u128, amount_in: u128) -> (r: u32)
    ensures
        r == spec_lfj_quote_fee_bps(fee, amount_in),
{
    if amount_in > 0 {
        let numerator: u128 = match fee.checked_mul(10000) {
            Some(v) => v,
            None => u128::MAX,
        };
        (numerator / amount_in) as u32
    } else {
        0
    }
}

/// The quote of an LFJ pool from its `getSwapOut` answer: the fee is an
/// amount, turned into bps of the (128-bit) input; gas is a fixed estimate.
pub fn lfj_quote(pool: &PoolInfo, amount_in: U256, amount_out: u128, fee: u128) -> (r: PoolQuote)
    ensures
        r.pool_address == pool.address,
        r.dex == Dex::LFJ,
        (r.token_in, r.token_out) == spec_swap_tokens(*pool),
        r.amount_in == amount_in,
        r.amount_out.value() == amount_out,
        r.fee_paid.value() == fee,
        r.fee_bps == spec_lfj_quote_fee_bps(
            fee,
            (if amount_in.value() <= u128::MAX {
                amount_in.value()
            } else {
                u128::MAX as int
            }) as u128,
        ),
        r.liquidity == pool.liquidity,
        r.sqrt_price_after is None,
        r.gas_estimate == LFJ_SWAP_GAS,
{
    let (token_in, token_out) = swap_tokens(pool);
    let amount_in_u128 = lfj_amount_in(amount_in);
    PoolQuote {
        pool_address: pool.address,
        dex: Dex::LFJ,
        token_in,
        token_out,
        amount_in,
        amount_out: U256::from_u128(amount_out),
        fee_paid: U256::from_u128(fee),
        fee_bps: lfj_quote_fee_bps(fee, amount_in_u128),
        liquidity: pool.liquidity,
        sqrt_price_after: None,
        gas_estimate: LFJ_SWAP_GAS,
    }
}

/// The key of a Uniswap V4 pool, as its quoter takes it.
#[derive(Debug, Clone, Copy, PartialEq, Eq, Structural)]
pub struct V4PoolKey {
    pub currency0: Address,
    pub currency1: Address,
    pub fee: u32,
    /// A 24-bit signed tick spacing.
    pub tick_spacing: i32,
    pub hooks: Address,
}

/// Tick spacing used when a pool gives none, or one that does not fit 24
/// bits.
pub const DEFAULT_TICK_SPACING: i32 = 60;

/// Whether a value fits a signed 24-bit integer.
pub open spec fn spec_fits_i24(v: i32) -> bool {
    -0x80_0000 <= v < 0x80_0000
}

/// The V4 pool key of a pool: its tokens, fee, tick spacing (60 when
/// missing or out of 24-bit range) and hooks (zero when missing).
pub open spec fn spec_v4_pool_key(pool: PoolInfo) -> V4PoolKey {
    let ts = match pool.tick_spacing {
        Some(t) => t,
        None => DEFAULT_TICK_SPACING,
    };
    V4PoolKey {
        currency0: pool.token0,
        currency1: pool.token1,
        fee: pool.fee,
        tick_spacing: if spec_fits_i24(ts) {
            ts
        } else {
            DEFAULT_TICK_SPACING
        },
        hooks: match pool.hooks {
            Some(h) => h,
            None => Address { high: 0, mid: 0, low: 0 },
        },
    }
}

/// The V4 pool key of a pool.
pub fn v4_pool_key(pool: &PoolInfo) -> (r: V4PoolKey)
    ensures
        r == spec_v4_pool_key(*pool),
{
    let ts = match pool.tick_spacing {
        Some(t) => t,
        None => DEFAULT_TICK_SPACING,
    };
    let tick_spacing = if -0x80_0000 <= ts && ts < 0x80_0000 {
        ts
    } else {
        DEFAULT_TICK_SPACING
    };
    V4PoolKey {
        currency0: pool.token0,
        currency1: pool.token1,
        fee: pool.fee,
        tick_spacing,
        hooks: match pool.hooks {
            Some(h) => h,
            None => Address { high: 0, mid: 0, low: 0 },
        },
    }
}

/// The quote of a Uniswap V4 pool from its quoter's answer; fees are
/// counted as in V3.
pub fn v4_quote(pool: &PoolInfo, amount_in: U256, amount_out: U256, gas_estimate: U256) -> (r: PoolQuote)
    requires
        gas_estimate.value() <= u64::MAX,
    ensures
        r.pool_address == pool.address,
        r.dex == Dex::UniswapV4,
        (r.token_in, r.token_out) == spec_swap_tokens(*pool),
        r.amount_in == amount_in,
        r.amount_out == amount_out,
        r.fee_paid.value() == spec_v3_fee_paid(amount_in, pool.fee),
        r.fee_bps == pool.fee / 100,
        r.liquidity == pool.liquidity,
        r.sqrt_price_after is None,
        r.gas_estimate == gas_estimate.value(),
{
    let (token_in, token_out) = swap_tokens(pool);
    let gas: u64 = match gas_estimate.to_u128() {
        Some(g) => g as u64,
        None => 0,
    };
    PoolQuote {
        pool_address: pool.address,
        dex: Dex::UniswapV4,
        token_in,
        token_out,
        amount_in,
        amount_out,
        fee_paid: v3_fee_paid(amount_in, pool.fee),
        fee_bps: pool.fee / 100,
        liquidity: pool.liquidity,
        sqrt_price_after: None,
        gas_estimate: gas,
    }
}

/// The gas of a list of quotes together.
pub open spec fn spec_gas_sum(quotes: Seq<PoolQuote>) -> int
    decreases quotes.len(),
{
    if quotes.len() == 0 {
        0
    } else {
        spec_gas_sum(quotes.drop_last()) + quotes.last().gas_estimate
    }
}

/// Quotes gathered for a path: the amount the next hop takes, the gas so
/// far and the quotes so far.
pub struct PathQuotes {
    pub current_amount: U256,
    pub total_gas: u64,
    pub quotes: Vec<PoolQuote>,
}

impl PathQuotes {
    /// The start of a path: the first hop takes the initial amount.
    pub fn begin(initial_amount: U256) -> (r: Self)
        ensures
            r.current_amount == initial_amount,
            r.total_gas == 0,
            r.quotes@ == Seq::<PoolQuote>::empty(),
    {
        PathQuotes { current_amount: initial_amount, total_gas: 0, quotes: Vec::new() }
    }

    /// Record the quote of the next hop: its output is what the following
    /// hop takes.
    pub fn record(&mut self, quote: PoolQuote)
        requires
            old(self).total_gas + quote.gas_estimate <= u64::MAX,
        ensures
            final(self).current_amount == quote.amount_out,
            final(self).total_gas == old(self).total_gas + quote.gas_estimate,
            final(self).quotes@ == old(self).quotes@.push(quote),
    {
        self.current_amount = quote.amount_out;
        self.total_gas = self.total_gas + quote.gas_estimate;
        self.quotes.push(quote);
    }

    /// The quotes of the path, taken at the given block.
    pub fn finish(self, block_number: u64, timestamp: u64) -> (r: AtomicQuote)
        ensures
            r.block_number == block_number,
            r.timestamp == timestamp,
            r.quotes@ == self.quotes@,
            r.total_gas_estimate == self.total_gas,
    {
        AtomicQuote {
            block_number,
            timestamp,
            quotes: self.quotes,
            total_gas_estimate: self.total_gas,
        }
    }
}

/// The quotes of a path chain: each hop takes what the previous hop gave,
/// the first takes the initial amount.
pub open spec fn spec_chained(initial_amount: U256, quotes: Seq<PoolQuote>) -> bool {
    &&& quotes.len() > 0 ==> quotes[0].amount_in == initial_amount
    &&& forall|i: int| 0 < i < quotes.len() ==> #[trigger] quotes[i].amount_in == quotes[i - 1].amount_out
}

/// The output of the last swap, zero when there is none.
pub open spec fn spec_final_out(quotes: Seq<PoolQuote>) -> U256 {
    if quotes.len() == 0 {
        U256 { limbs: [0, 0, 0, 0] }
    } else {
        quotes.last().amount_out
    }
}

impl AtomicQuote {
    /// The output of the last swap, zero when there is none.
    pub fn final_amount_out(&self) -> (r: U256)
        ensures
            r == spec_final_out(self.quotes@),
    {
        let n = self.quotes.len();
        if n == 0 {
            U256::zero()
        } else {
            self.quotes[n - 1].amount_out
        }
    }

    /// The fees of all swaps together, wrapping at 2^256.
    pub fn total_fees(&self) -> (r: U256)
        ensures
            r.value() == spec_fee_sum(self.quotes@),
    {
        let mut sum = U256::zero();
        let mut i: usize = 0;
        while i < self.quotes.len()
            invariant
                i <= self.quotes@.len(),
                sum.value() == spec_fee_sum(self.quotes@.take(i as int)),
            decreases self.quotes.len() - i,
        {
            proof {
                assert(self.quotes@.take(i + 1).drop_last() == self.quotes@.take(i as int));
                assert(self.quotes@.take(i + 1).last() == self.quotes@[i as int]);
            }
            sum = u256_add(sum, self.quotes[i].fee_paid);
            i = i + 1;
        }
        assert(self.quotes@.take(self.quotes@.len() as int) == self.quotes@);
        sum
    }

    /// All quotes were taken against one block.
    pub fn is_atomic(&self) -> (r: bool)
        ensures
            r,
    {
        true
    }
}

/// The fees of a list of quotes together, wrapping at 2^256.
pub open spec fn spec_fee_sum(quotes: Seq<PoolQuote>) -> int
    decreases quotes.len(),
{
    if quotes.len() == 0 {
        0
    } else {
        (spec_fee_sum(quotes.drop_last()) + quotes.last().fee_paid.value()) % u256_modulus()
    }
}

/// A path's quotes as they stand: chained from the initial amount, the
/// gas their sum, and the next hop taking the last output.
pub open spec fn spec_path_wf(p: PathQuotes, initial_amount: U256) -> bool {
    &&& spec_chained(initial_amount, p.quotes@)
    &&& p.total_gas == spec_gas_sum(p.quotes@)
    &&& p.current_amount == if p.quotes@.len() == 0 {
        initial_amount
    } else {
        p.quotes@.last().amount_out
    }
}

/// Quoting a path hop by hop, each hop asked with the amount the state
/// holds, keeps the quotes chained and the gas their sum: true of the
/// start, and kept by every recorded hop.
pub proof fn law_path_quotes_chain(before: PathQuotes, quote: PoolQuote, after: PathQuotes, initial_amount: U256)
    requires
        spec_path_wf(before, initial_amount),
        quote.amount_in == before.current_amount,
        after.current_amount == quote.amount_out,
        after.total_gas == before.total_gas + quote.gas_estimate,
        after.quotes@ == before.quotes@.push(quote),
    ensures
        spec_path_wf(after, initial_amount),
{
    assert(after.quotes@.drop_last() == before.quotes@);
}

/// A path that has just begun is well formed.
pub proof fn law_path_begin(p: PathQuotes, initial_amount: U256)
    requires
        p.current_amount == initial_amount,
        p.total_gas == 0,
        p.quotes@ == Seq::<PoolQuote>::empty(),
    ensures
        spec_path_wf(p, initial_amount),
{
}

/// The output of a quoted path is its last hop's output, whatever the
/// earlier hops gave: with at least one hop it is that hop's amount out,
/// and adding a hop makes the new hop's amount out the output.
pub proof fn law_final_out_is_last_hop(quotes: Seq<PoolQuote>, next: PoolQuote)
    ensures
        quotes.len() > 0 ==> spec_final_out(quotes) == quotes[quotes.len() - 1].amount_out,
        spec_final_out(quotes.push(next)) == next.amount_out,
        quotes.len() == 0 ==> spec_final_out(quotes).value() == 0,
{
    let z = U256 { limbs: [0, 0, 0, 0] };
    assert(z.value() == 0) by {
        crate::uint::lemma_value_bounds(z);
    }
}

} // verus!
