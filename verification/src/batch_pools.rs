//! Pools found in batches: the LFJ pairs asked of the factory, the pool an
//! LFJ pair's data gives, which pools are kept, and the pools of all DEXes
//! gathered together.

use crate::address::Address;
use crate::dex::{Dex, Pool};
use crate::graph::{address_less, address_lt};
use crate::tokens::{decimals, spec_decimals};
use crate::uint::{u256_add, u256_modulus, U256};
use vstd::prelude::*;

verus! {

/// The least liquidity of a pool worth keeping: 1000 tokens of 18 decimals.
pub const MIN_POOL_LIQUIDITY: u128 = 1_000_000_000_000_000_000_000;

/// The LFJ bin steps asked for each pair of tokens.
pub fn lfj_bin_steps() -> (r: Vec<u16>)
    ensures
        r@ == seq![1u16, 5, 10, 15, 20, 25],
{
    vec![1, 5, 10, 15, 20, 25]
}

/// The pairs asked for two tokens, bin step by bin step: both orders, as
/// LFJ keeps its tokens unsorted.
pub open spec fn spec_step_queries(a: Address, b: Address, steps: Seq<u16>) -> Seq<(Address, Address, u16)>
    decreases steps.len(),
{
    if steps.len() == 0 {
        Seq::empty()
    } else {
        spec_step_queries(a, b, steps.drop_last()) + seq![(a, b, steps.last()), (b, a, steps.last())]
    }
}

/// The pairs asked for token `a` with each of `partners`, in order.
pub open spec fn spec_partner_queries(a: Address, partners: Seq<Address>, steps: Seq<u16>) -> Seq<(Address, Address, u16)>
    decreases partners.len(),
{
    if partners.len() == 0 {
        Seq::empty()
    } else {
        spec_partner_queries(a, partners.drop_last(), steps) + spec_step_queries(a, partners.last(), steps)
    }
}

/// The pairs asked for the token pairs `(i, j)`, `i < j`, from token `i` on.
pub open spec fn spec_queries_from(tokens: Seq<Address>, steps: Seq<u16>, i: int) -> Seq<(Address, Address, u16)>
    decreases tokens.len() - i,
{
    if i >= tokens.len() {
        Seq::empty()
    } else {
        spec_partner_queries(tokens[i], tokens.subrange(i + 1, tokens.len() as int), steps) + spec_queries_from(
            tokens,
            steps,
            i + 1,
        )
    }
}

fn push_step_queries(out: &mut Vec<(Address, Address, u16)>, a: Address, b: Address, steps: &Vec<u16>)
    ensures
        final(out)@ == old(out)@ + spec_step_queries(a, b, steps@),
{
    let ghost start = out@;
    let mut k: usize = 0;
    while k < steps.len()
        invariant
            k <= steps@.len(),
            out@ == start + spec_step_queries(a, b, steps@.take(k as int)),
        decreases steps.len() - k,
    {
        proof {
            assert(steps@.take(k + 1).drop_last() == steps@.take(k as int));
            assert(steps@.take(k + 1).last() == steps@[k as int]);
        }
        out.push((a, b, steps[k]));
        out.push((b, a, steps[k]));
        proof {
            assert(out@ == start + spec_step_queries(a, b, steps@.take(k + 1)));
        }
        k = k + 1;
    }
    assert(steps@.take(steps@.len() as int) == steps@);
}

fn push_partner_queries(out: &mut Vec<(Address, Address, u16)>, tokens: &Vec<Address>, i: usize, steps: &Vec<u16>)
    requires
        i < tokens@.len(),
    ensures
        final(out)@ == old(out)@ + spec_partner_queries(
            tokens@[i as int],
            tokens@.subrange(i + 1, tokens@.len() as int),
            steps@,
        ),
{
    let ghost start = out@;
    let ghost a = tokens@[i as int];
    let n = tokens.len();
    let mut j: usize = i + 1;
    while j < n
        invariant
            n == tokens@.len(),
            i < j <= n,
            a == tokens@[i as int],
            out@ == start + spec_partner_queries(a, tokens@.subrange(i + 1, j as int), steps@),
        decreases n - j,
    {
        proof {
            assert(tokens@.subrange(i + 1, j + 1).drop_last() == tokens@.subrange(i + 1, j as int));
            assert(tokens@.subrange(i + 1, j + 1).last() == tokens@[j as int]);
        }
        push_step_queries(out, tokens[i], tokens[j], steps);
        proof {
            assert(out@ == start + spec_partner_queries(a, tokens@.subrange(i + 1, j + 1), steps@));
        }
        j = j + 1;
    }
}

/// The LFJ pairs to ask the factory for: each pair of tokens in both
/// orders, with each bin step.
pub fn lfj_pair_queries(tokens: &Vec<Address>, steps: &Vec<u16>) -> (r: Vec<(Address, Address, u16)>)
    ensures
        r@ == spec_queries_from(tokens@, steps@, 0),
{
    let mut out: Vec<(Address, Address, u16)> = Vec::new();
    let n = tokens.len();
    let mut i: usize = 0;
    while i < n
        invariant
            n == tokens@.len(),
            i <= n,
            spec_queries_from(tokens@, steps@, 0) == out@ + spec_queries_from(tokens@, steps@, i as int),
        decreases n - i,
    {
        let ghost before = out@;
        push_partner_queries(&mut out, tokens, i, steps);
        proof {
            let p = spec_partner_queries(tokens@[i as int], tokens@.subrange(i + 1, n as int), steps@);
            assert(spec_queries_from(tokens@, steps@, i as int) == p + spec_queries_from(tokens@, steps@, i + 1));
            assert(before + (p + spec_queries_from(tokens@, steps@, i + 1)) == out@ + spec_queries_from(
                tokens@,
                steps@,
                i + 1,
            ));
        }
        i = i + 1;
    }
    assert(out@ + spec_queries_from(tokens@, steps@, n as int) == out@);
    out
}

/// What is read of an LFJ pair.
#[derive(Debug, Clone, Copy, PartialEq, Eq)]
pub struct LfjPairData {
    pub token_x: Address,
    pub token_y: Address,
    pub bin_step: u16,
    pub active_id: u32,
    pub reserve_x: U256,
    pub reserve_y: U256,
}

/// The pool an LFJ pair stands for: its tokens in byte order, its fee taken
/// as the bin step in tens of bps (in hundredths of a bip), its liquidity
/// the sum of its reserves, and the sqrt price the caller derived from its
/// active bin.
pub fn lfj_pair_pool(pair: Address, data: &LfjPairData, sqrt_price_x96: U256) -> (r: Pool)
    ensures
        r.address == pair,
        r.token0 == if address_lt(data.token_x, data.token_y) { data.token_x } else { data.token_y },
        r.token1 == if address_lt(data.token_x, data.token_y) { data.token_y } else { data.token_x },
        r.fee == data.bin_step * 1000,
        r.dex == Dex::LFJ,
        r.liquidity.value() == (data.reserve_x.value() + data.reserve_y.value()) % u256_modulus(),
        r.sqrt_price_x96 == sqrt_price_x96,
        r.decimals0 == spec_decimals(r.token0),
        r.decimals1 == spec_decimals(r.token1),
{
    let (token0, token1) = if address_less(data.token_x, data.token_y) {
        (data.token_x, data.token_y)
    } else {
        (data.token_y, data.token_x)
    };
    let fee_bps: u32 = (data.bin_step as u32) * 10;
    Pool {
        address: pair,
        token0,
        token1,
        fee: fee_bps * 100,
        dex: Dex::LFJ,
        liquidity: u256_add(data.reserve_x, data.reserve_y),
        sqrt_price_x96,
        decimals0: decimals(token0),
        decimals1: decimals(token1),
    }
}

/// A pool found in a batch is kept when it holds liquidity, at least
/// `MIN_POOL_LIQUIDITY`.
pub fn keep_batch_pool(pool: &Pool) -> (r: bool)
    ensures
        r == (pool.liquidity.value() > 0 && pool.liquidity.value() >= MIN_POOL_LIQUIDITY),
{
    pool.has_sufficient_liquidity(1) && pool.has_sufficient_liquidity(MIN_POOL_LIQUIDITY)
}

/// The pools of all DEXes, with how many each gave.
#[derive(Debug)]
pub struct AllPoolsResult {
    pub pools: Vec<Pool>,
    pub uniswap_v3_count: usize,
    pub uniswap_v4_count: usize,
    pub pancakeswap_count: usize,
    pub lfj_count: usize,
}

impl AllPoolsResult {
    /// The number of pools of all DEXes.
    pub fn total_count(&self) -> (r: usize)
        requires
            self.uniswap_v3_count + self.uniswap_v4_count + self.pancakeswap_count + self.lfj_count <= usize::MAX,
        ensures
            r == self.uniswap_v3_count + self.uniswap_v4_count + self.pancakeswap_count + self.lfj_count,
    {
        self.uniswap_v3_count + self.uniswap_v4_count + self.pancakeswap_count + self.lfj_count
    }
}

/// The number of pools a DEX gave: none when its lookup failed.
pub open spec fn spec_found_count(found: Option<Vec<Pool>>) -> nat {
    match found {
        Some(p) => p@.len(),
        None => 0,
    }
}

/// The pools a DEX gave: none when its lookup failed.
pub open spec fn spec_found_pools(found: Option<Vec<Pool>>) -> Seq<Pool> {
    match found {
        Some(p) => p@,
        None => Seq::empty(),
    }
}

fn take_found(found: Option<Vec<Pool>>, pools: &mut Vec<Pool>) -> (r: usize)
    ensures
        r == spec_found_count(found),
        final(pools)@ == old(pools)@ + spec_found_pools(found),
{
    match found {
        Some(mut p) => {
            let n = p.len();
            pools.append(&mut p);
            n
        },
        None => 0,
    }
}

/// The pools of all DEXes from what each lookup gave (none when it failed),
/// Uniswap V3 first, then PancakeSwap, then LFJ; no V4 pools are looked up
/// here.
pub fn gather_pools(uniswap_v3: Option<Vec<Pool>>, pancakeswap: Option<Vec<Pool>>, lfj: Option<Vec<Pool>>) -> (r: AllPoolsResult)
    ensures
        r.pools@ == spec_found_pools(uniswap_v3) + spec_found_pools(pancakeswap) + spec_found_pools(lfj),
        r.uniswap_v3_count == spec_found_count(uniswap_v3),
        r.uniswap_v4_count == 0,
        r.pancakeswap_count == spec_found_count(pancakeswap),
        r.lfj_count == spec_found_count(lfj),
{
    let mut pools: Vec<Pool> = Vec::new();
    let uniswap_v3_count = take_found(uniswap_v3, &mut pools);
    let pancakeswap_count = take_found(pancakeswap, &mut pools);
    let lfj_count = take_found(lfj, &mut pools);
    AllPoolsResult { pools, uniswap_v3_count, uniswap_v4_count: 0, pancakeswap_count, lfj_count }
}

} // verus!
