//! Asking a factory for pools: each pair of tokens, in byte order, with
//! each fee tier (V3-style factories) or bin step (LFJ); the factory's
//! answer; and the pool read back from a V3-style pool.

use crate::address::Address;
use crate::dex::{Dex, Pool};
use crate::graph::{address_less, address_lt};
use crate::tokens::{decimals, spec_decimals};
use crate::uint::U256;
use vstd::prelude::*;

verus! {

/// Two tokens in byte order.
pub open spec fn spec_sorted_pair(a: Address, b: Address) -> (Address, Address) {
    if address_lt(a, b) {
        (a, b)
    } else {
        (b, a)
    }
}

/// The lookups for two tokens, one per fee tier or bin step.
pub open spec fn spec_param_lookups(a: Address, b: Address, params: Seq<u32>) -> Seq<(Address, Address, u32)>
    decreases params.len(),
{
    if params.len() == 0 {
        Seq::empty()
    } else {
        spec_param_lookups(a, b, params.drop_last()) + seq![
            (spec_sorted_pair(a, b).0, spec_sorted_pair(a, b).1, params.last()),
        ]
    }
}

/// The lookups for token `a` with each of `partners`, in order.
pub open spec fn spec_partner_lookups(a: Address, partners: Seq<Address>, params: Seq<u32>) -> Seq<(Address, Address, u32)>
    decreases partners.len(),
{
    if partners.len() == 0 {
        Seq::empty()
    } else {
        spec_partner_lookups(a, partners.drop_last(), params) + spec_param_lookups(a, partners.last(), params)
    }
}

/// The lookups for the token pairs `(i, j)`, `i < j`, from token `i` on.
pub open spec fn spec_lookups_from(tokens: Seq<Address>, params: Seq<u32>, i: int) -> Seq<(Address, Address, u32)>
    decreases tokens.len() - i,
{
    if i >= tokens.len() {
        Seq::empty()
    } else {
        spec_partner_lookups(tokens[i], tokens.subrange(i + 1, tokens.len() as int), params) + spec_lookups_from(
            tokens,
            params,
            i + 1,
        )
    }
}

fn push_param_lookups(out: &mut Vec<(Address, Address, u32)>, a: Address, b: Address, params: &Vec<u32>)
    ensures
        final(out)@ == old(out)@ + spec_param_lookups(a, b, params@),
{
    let ghost start = out@;
    let (token0, token1) = if address_less(a, b) {
        (a, b)
    } else {
        (b, a)
    };
    let mut k: usize = 0;
    while k < params.len()
        invariant
            k <= params@.len(),
            (token0, token1) == spec_sorted_pair(a, b),
            out@ == start + spec_param_lookups(a, b, params@.take(k as int)),
        decreases params.len() - k,
    {
        proof {
            assert(params@.take(k + 1).drop_last() == params@.take(k as int));
            assert(params@.take(k + 1).last() == params@[k as int]);
        }
        out.push((token0, token1, params[k]));
        proof {
            assert(out@ == start + spec_param_lookups(a, b, params@.take(k + 1)));
        }
        k = k + 1;
    }
    assert(params@.take(params@.len() as int) == params@);
}

fn push_partner_lookups(out: &mut Vec<(Address, Address, u32)>, tokens: &Vec<Address>, i: usize, params: &Vec<u32>)
    requires
        i < tokens@.len(),
    ensures
        final(out)@ == old(out)@ + spec_partner_lookups(
            tokens@[i as int],
            tokens@.subrange(i + 1, tokens@.len() as int),
            params@,
        ),
{
    let ghost start = out@;
    let ghost a = tokens@[i as int];
    let n = tokens.len();
    let mut j: usize = i + 1;
    while j < n
        invariant
            n == tokens@.len(),
            i < j <= n,
            a == tokens@[i as int],
            out@ == start + spec_partner_lookups(a, tokens@.subrange(i + 1, j as int), params@),
        decreases n - j,
    {
        proof {
            assert(tokens@.subrange(i + 1, j + 1).drop_last() == tokens@.subrange(i + 1, j as int));
            assert(tokens@.subrange(i + 1, j + 1).last() == tokens@[j as int]);
        }
        push_param_lookups(out, tokens[i], tokens[j], params);
        proof {
            assert(out@ == start + spec_partner_lookups(a, tokens@.subrange(i + 1, j + 1), params@));
        }
        j = j + 1;
    }
}

/// The factory lookups for pools among `tokens`: each pair `(i, j)`,
/// `i < j`, in byte order, with each fee tier or bin step.
pub fn pool_lookups(tokens: &Vec<Address>, params: &Vec<u32>) -> (r: Vec<(Address, Address, u32)>)
    ensures
        r@ == spec_lookups_from(tokens@, params@, 0),
{
    let mut out: Vec<(Address, Address, u32)> = Vec::new();
    let n = tokens.len();
    let mut i: usize = 0;
    while i < n
        invariant
            n == tokens@.len(),
            i <= n,
            spec_lookups_from(tokens@, params@, 0) == out@ + spec_lookups_from(tokens@, params@, i as int),
        decreases n - i,
    {
        let ghost before = out@;
        push_partner_lookups(&mut out, tokens, i, params);
        proof {
            let p = spec_partner_lookups(tokens@[i as int], tokens@.subrange(i + 1, n as int), params@);
            assert(spec_lookups_from(tokens@, params@, i as int) == p + spec_lookups_from(tokens@, params@, i + 1));
            assert(before + (p + spec_lookups_from(tokens@, params@, i + 1)) == out@ + spec_lookups_from(
                tokens@,
                params@,
                i + 1,
            ));
        }
        i = i + 1;
    }
    assert(out@ + spec_lookups_from(tokens@, params@, n as int) == out@);
    out
}

/// A factory's answer: the zero address means there is no such pool.
pub fn found_pool(answer: Address) -> (r: Option<Address>)
    ensures
        answer == (Address { high: 0, mid: 0, low: 0 }) ==> r is None,
        answer != (Address { high: 0, mid: 0, low: 0 }) ==> r == Some(answer),
{
    if answer.high == 0 && answer.mid == 0 && answer.low == 0 {
        None
    } else {
        Some(answer)
    }
}

/// The PancakeSwap V3 pool read back: its fee tier, liquidity and sqrt
/// price, and the tokens' decimals.
pub fn pancakeswap_pool(pool_address: Address, token0: Address, token1: Address, fee: u32, liquidity: u128, sqrt_price_x96: U256) -> (r: Pool)
    ensures
        r.address == pool_address,
        r.token0 == token0,
        r.token1 == token1,
        r.fee == fee,
        r.dex == Dex::PancakeSwapV3,
        r.liquidity.value() == liquidity,
        r.sqrt_price_x96 == sqrt_price_x96,
        r.decimals0 == spec_decimals(token0),
        r.decimals1 == spec_decimals(token1),
{
    Pool {
        address: pool_address,
        token0,
        token1,
        fee,
        dex: Dex::PancakeSwapV3,
        liquidity: U256::from_u128(liquidity),
        sqrt_price_x96,
        decimals0: decimals(token0),
        decimals1: decimals(token1),
    }
}

/// Every lookup names its two tokens in byte order.
pub open spec fn spec_lookups_sorted(s: Seq<(Address, Address, u32)>) -> bool {
    forall|k: int| 0 <= k < s.len() ==> !address_lt(#[trigger] s[k].1, s[k].0)
}

proof fn lemma_sorted_concat(a: Seq<(Address, Address, u32)>, b: Seq<(Address, Address, u32)>)
    requires
        spec_lookups_sorted(a),
        spec_lookups_sorted(b),
    ensures
        spec_lookups_sorted(a + b),
{
    assert forall|k: int| 0 <= k < (a + b).len() implies !address_lt(#[trigger] (a + b)[k].1, (a + b)[k].0) by {
        if k < a.len() {
            assert((a + b)[k] == a[k]);
        } else {
            assert((a + b)[k] == b[k - a.len()]);
        }
    }
}

proof fn lemma_param_lookups_sorted(a: Address, b: Address, params: Seq<u32>)
    ensures
        spec_lookups_sorted(spec_param_lookups(a, b, params)),
    decreases params.len(),
{
    if params.len() > 0 {
        lemma_param_lookups_sorted(a, b, params.drop_last());
        lemma_sorted_concat(
            spec_param_lookups(a, b, params.drop_last()),
            seq![(spec_sorted_pair(a, b).0, spec_sorted_pair(a, b).1, params.last())],
        );
    }
}

proof fn lemma_partner_lookups_sorted(a: Address, partners: Seq<Address>, params: Seq<u32>)
    ensures
        spec_lookups_sorted(spec_partner_lookups(a, partners, params)),
    decreases partners.len(),
{
    if partners.len() > 0 {
        lemma_partner_lookups_sorted(a, partners.drop_last(), params);
        lemma_param_lookups_sorted(a, partners.last(), params);
        lemma_sorted_concat(
            spec_partner_lookups(a, partners.drop_last(), params),
            spec_param_lookups(a, partners.last(), params),
        );
    }
}

proof fn lemma_lookups_from_sorted(tokens: Seq<Address>, params: Seq<u32>, i: int)
    ensures
        spec_lookups_sorted(spec_lookups_from(tokens, params, i)),
    decreases tokens.len() - i,
{
    if i < tokens.len() {
        lemma_partner_lookups_sorted(tokens[i], tokens.subrange(i + 1, tokens.len() as int), params);
        lemma_lookups_from_sorted(tokens, params, i + 1);
        lemma_sorted_concat(
            spec_partner_lookups(tokens[i], tokens.subrange(i + 1, tokens.len() as int), params),
            spec_lookups_from(tokens, params, i + 1),
        );
    }
}

/// Every pool looked up is asked for with its tokens sorted (token0 before
/// token1), as the factories expect.
pub proof fn law_lookups_sorted(tokens: Seq<Address>, params: Seq<u32>)
    ensures
        spec_lookups_sorted(spec_lookups_from(tokens, params, 0)),
{
    lemma_lookups_from_sorted(tokens, params, 0);
}

} // verus!
