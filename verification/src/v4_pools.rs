//! Uniswap V4 pool discovery: which initialized pools are safe to trade,
//! the block ranges scanned for their `Initialize` events, their pool ids,
//! and the pools read back from the state view.

use crate::address::{address_bytes, address_from_word, spec_address_bytes, Address};
use crate::dex::{Dex, Pool};
use crate::config::{is_valid_fee_tick_combo, spec_valid_fee_tick_combo};
use crate::graph::{address_less, address_lt};
use crate::quotes::{spec_fits_i24, V4PoolKey};
use crate::text::str_equals;
use crate::tokens::{decimals, spec_decimals, spec_symbol, symbol};
use crate::uint::U256;
use vstd::prelude::*;

verus! {

/// Fee flag of a pool whose fee its hooks set per swap.
pub const DYNAMIC_FEE_FLAG: u32 = 0x80_0000;

/// Hook permissions that let a hook change swap amounts
/// (beforeSwapReturnsDelta and afterSwapReturnsDelta).
pub const UNSAFE_HOOK_FLAGS: u64 = 0x0c;

/// How far back the `Initialize` events are scanned.
pub const SCAN_BLOCKS_BACK: u64 = 50_000;

/// Blocks per log query.
pub const SCAN_CHUNK_BLOCKS: u64 = 10_000;

/// The least liquidity of a pool worth keeping: 1000 tokens of 18 decimals.
pub const V4_MIN_LIQUIDITY: u128 = 1_000_000_000_000_000_000_000;

/// The hook permission bits of a hooks address: its last two bytes.
pub open spec fn spec_hook_bits(hooks: Address) -> u64 {
    hooks.low & 0xffff
}

/// The zero address, which stands for "no hooks".
pub open spec fn spec_no_hooks(hooks: Address) -> bool {
    hooks == Address { high: 0, mid: 0, low: 0 }
}

/// A pool can be traded against when its fee is static and its hooks, if
/// any, cannot change swap amounts.
pub open spec fn spec_pool_safe(fee: u32, hooks: Address) -> bool {
    &&& fee & DYNAMIC_FEE_FLAG == 0
    &&& (spec_no_hooks(hooks) || spec_hook_bits(hooks) & UNSAFE_HOOK_FLAGS == 0)
}

/// Whether a V4 pool is safe for arbitrage.
pub fn is_pool_safe_for_arb(fee: u32, hooks: Address) -> (r: bool)
    ensures
        r == spec_pool_safe(fee, hooks),
{
    if fee & DYNAMIC_FEE_FLAG != 0 {
        return false;
    }
    if hooks.high == 0 && hooks.mid == 0 && hooks.low == 0 {
        return true;
    }
    let low_bits: u64 = hooks.low & 0xffff;
    low_bits & UNSAFE_HOOK_FLAGS == 0
}

/// A token is monitored when it has a known symbol.
pub open spec fn spec_monitored(token: Address) -> bool {
    spec_symbol(token) != "???"@
}

/// Whether a token is one the bot monitors.
pub fn is_monitored_token(token: Address) -> (r: bool)
    ensures
        r == spec_monitored(token),
{
    !str_equals(symbol(token), "???")
}

/// The first block scanned when the chain is at `latest`.
pub open spec fn spec_scan_start(latest: u64) -> int {
    if latest >= SCAN_BLOCKS_BACK {
        latest - SCAN_BLOCKS_BACK
    } else {
        0
    }
}

/// The inclusive block ranges queried from `from` up to the chain head,
/// `SCAN_CHUNK_BLOCKS` at a time; a range starts only below the head.
pub open spec fn spec_scan_ranges(from: int, latest: int) -> Seq<(u64, u64)>
    decreases latest - from + 1,
{
    if from >= latest {
        Seq::empty()
    } else {
        let to = if from + SCAN_CHUNK_BLOCKS - 1 <= latest {
            from + SCAN_CHUNK_BLOCKS - 1
        } else {
            latest
        };
        seq![(from as u64, to as u64)] + spec_scan_ranges(to + 1, latest)
    }
}

/// The block ranges to scan for `Initialize` events.
pub fn discovery_block_ranges(latest_block: u64) -> (r: Vec<(u64, u64)>)
    requires
        latest_block <= u64::MAX - SCAN_CHUNK_BLOCKS,
    ensures
        r@ == spec_scan_ranges(spec_scan_start(latest_block), latest_block as int),
{
    let start = latest_block.saturating_sub(SCAN_BLOCKS_BACK);
    let mut ranges: Vec<(u64, u64)> = Vec::new();
    let mut from: u64 = start;
    while from < latest_block
        invariant
            start == spec_scan_start(latest_block),
            start <= from <= latest_block + 1,
            latest_block <= u64::MAX - SCAN_CHUNK_BLOCKS,
            spec_scan_ranges(start as int, latest_block as int) == ranges@ + spec_scan_ranges(
                from as int,
                latest_block as int,
            ),
        decreases latest_block + 1 - from,
    {
        let to: u64 = if from + SCAN_CHUNK_BLOCKS - 1 <= latest_block {
            from + SCAN_CHUNK_BLOCKS - 1
        } else {
            latest_block
        };
        let ghost before = ranges@;
        ranges.push((from, to));
        proof {
            assert(spec_scan_ranges(from as int, latest_block as int) == seq![(from, to)] + spec_scan_ranges(
                to + 1,
                latest_block as int,
            ));
            assert(ranges@ == before + seq![(from, to)]);
            assert(before + (seq![(from, to)] + spec_scan_ranges(to + 1, latest_block as int)) == ranges@
                + spec_scan_ranges(to + 1, latest_block as int));
        }
        from = to + 1;
    }
    assert(ranges@ + spec_scan_ranges(from as int, latest_block as int) == ranges@);
    ranges
}

/// An `Initialize` event of the pool manager, decoded.
#[derive(Debug, Clone, Copy, PartialEq, Eq)]
pub struct InitializeEvent {
    pub currency0: Address,
    pub currency1: Address,
    /// A 24-bit fee, in hundredths of a bip (or with the dynamic flag).
    pub fee: u32,
    /// A 24-bit signed tick spacing.
    pub tick_spacing: i32,
    pub hooks: Address,
    pub sqrt_price_x96: U256,
}

/// A pool found among the `Initialize` events.
#[derive(Debug, Clone, Copy, PartialEq, Eq)]
pub struct DiscoveredPool {
    pub pool_id: [u8; 32],
    pub currency0: Address,
    pub currency1: Address,
    pub fee: u32,
    pub tick_spacing: i32,
    pub hooks: Address,
    /// The price at initialization, capped at `u128::MAX`.
    pub initial_sqrt_price: u128,
}

/// Keccak-256 of some bytes, as `alloy` computes it.
pub uninterp spec fn spec_keccak256(data: Seq<u8>) -> Seq<u8>;

/// `alloy::primitives::keccak256`: the 32-byte Keccak-256 digest of the
/// bytes. The digest is a function of the bytes alone; nothing more about it
/// is stated.
#[verifier::external_body]
pub(crate) fn keccak256(data: &Vec<u8>) -> (r: [u8; 32])
    ensures
        r@ == spec_keccak256(data@),
{
    alloy::primitives::keccak256(data.as_slice()).0
}

/// `n` zero bytes.
pub open spec fn spec_zeros(n: nat) -> Seq<u8> {
    Seq::new(n, |i: int| 0u8)
}

/// The ABI word of an address: 12 zero bytes and its 20 bytes.
pub open spec fn spec_address_word(a: Seq<u8>) -> Seq<u8> {
    spec_zeros(12) + a
}

/// The ABI word of a `uint24`: 29 zero bytes and its 3 bytes, most
/// significant first.
pub open spec fn spec_uint24_word(v: u32) -> Seq<u8> {
    spec_zeros(29) + seq![(v >> 16u32) as u8, (v >> 8u32) as u8, v as u8]
}

/// The ABI word of an `int24`: 29 sign bytes and its 3 bytes in two's
/// complement, most significant first.
pub open spec fn spec_int24_word(v: i32) -> Seq<u8> {
    Seq::new(29, |i: int| if v < 0 { 0xffu8 } else { 0u8 }) + seq![
        (v >> 16i32) as u8,
        (v >> 8i32) as u8,
        v as u8,
    ]
}

/// The ABI encoding of a V4 pool key `(currency0, currency1, uint24 fee,
/// int24 tickSpacing, hooks)`: five words.
pub open spec fn spec_pool_key_encoding(
    currency0: Seq<u8>,
    currency1: Seq<u8>,
    fee: u32,
    tick_spacing: i32,
    hooks: Seq<u8>,
) -> Seq<u8> {
    spec_address_word(currency0) + spec_address_word(currency1) + spec_uint24_word(fee) + spec_int24_word(
        tick_spacing,
    ) + spec_address_word(hooks)
}

/// `alloy`'s ABI encoding (`SolValue::abi_encode`) of a V4 pool key, a
/// tuple of static values: each value in a word of its own.
#[verifier::external_body]
fn abi_encode_pool_key(
    currency0: [u8; 20],
    currency1: [u8; 20],
    fee: u32,
    tick_spacing: i32,
    hooks: [u8; 20],
) -> (r: Vec<u8>)
    requires
        fee < 0x100_0000,
        spec_fits_i24(tick_spacing),
    ensures
        r@ == spec_pool_key_encoding(currency0@, currency1@, fee, tick_spacing, hooks@),
{
    let key = (
        alloy::primitives::Address::from(currency0),
        alloy::primitives::Address::from(currency1),
        alloy::primitives::aliases::U24::from(fee),
        alloy::primitives::aliases::I24::unchecked_from(tick_spacing),
        alloy::primitives::Address::from(hooks),
    );
    alloy::sol_types::SolValue::abi_encode(&key)
}

/// The id of the pool with this key: Keccak-256 of the key's ABI encoding.
pub open spec fn spec_pool_id(currency0: Address, currency1: Address, fee: u32, tick_spacing: i32, hooks: Address) -> Seq<u8> {
    spec_keccak256(
        spec_pool_key_encoding(
            spec_address_bytes(currency0),
            spec_address_bytes(currency1),
            fee,
            tick_spacing,
            spec_address_bytes(hooks),
        ),
    )
}

/// The pool id of a V4 pool key.
pub fn pool_id(currency0: Address, currency1: Address, fee: u32, tick_spacing: i32, hooks: Address) -> (r: [u8; 32])
    requires
        fee < 0x100_0000,
        spec_fits_i24(tick_spacing),
    ensures
        r@ == spec_pool_id(currency0, currency1, fee, tick_spacing, hooks),
{
    let encoded = abi_encode_pool_key(address_bytes(currency0), address_bytes(currency1), fee, tick_spacing, address_bytes(hooks));
    keccak256(&encoded)
}

/// The tick spacing put in the key of a discovered pool: its own when it
/// fits 24 bits, else zero.
pub open spec fn spec_key_tick_spacing(tick_spacing: i32) -> i32 {
    if spec_fits_i24(tick_spacing) {
        tick_spacing
    } else {
        0
    }
}

/// An event gives a pool worth following when both its tokens are
/// monitored and the pool is safe.
pub open spec fn spec_event_selected(e: InitializeEvent, tokens: Seq<Address>) -> bool {
    &&& tokens.contains(e.currency0)
    &&& tokens.contains(e.currency1)
    &&& spec_pool_safe(e.fee, e.hooks)
}

/// The events that give pools, in order.
pub open spec fn spec_selected_events(events: Seq<InitializeEvent>, tokens: Seq<Address>) -> Seq<InitializeEvent>
    decreases events.len(),
{
    if events.len() == 0 {
        Seq::empty()
    } else {
        let rest = spec_selected_events(events.drop_last(), tokens);
        if spec_event_selected(events.last(), tokens) {
            rest.push(events.last())
        } else {
            rest
        }
    }
}

/// `d` is the pool discovered from event `e`.
pub open spec fn spec_discovered_from(d: DiscoveredPool, e: InitializeEvent) -> bool {
    &&& d.pool_id@ == spec_pool_id(e.currency0, e.currency1, e.fee, spec_key_tick_spacing(e.tick_spacing), e.hooks)
    &&& d.currency0 == e.currency0
    &&& d.currency1 == e.currency1
    &&& d.fee == e.fee
    &&& d.tick_spacing == e.tick_spacing
    &&& d.hooks == e.hooks
    &&& d.initial_sqrt_price == if e.sqrt_price_x96.value() <= u128::MAX {
        e.sqrt_price_x96.value()
    } else {
        u128::MAX as int
    }
}

/// Whether `a` is among `v`.
pub fn contains_address(v: &Vec<Address>, a: Address) -> (r: bool)
    ensures
        r == v@.contains(a),
{
    let mut i: usize = 0;
    while i < v.len()
        invariant
            i <= v@.len(),
            forall|j: int| 0 <= j < i ==> v@[j] != a,
        decreases v.len() - i,
    {
        if v[i] == a {
            assert(v@[i as int] == a);
            return true;
        }
        i = i + 1;
    }
    false
}

/// The pool an event describes.
fn discovered_pool(e: &InitializeEvent) -> (r: DiscoveredPool)
    requires
        e.fee < 0x100_0000,
    ensures
        spec_discovered_from(r, *e),
{
    let tick_spacing = if -0x80_0000 <= e.tick_spacing && e.tick_spacing < 0x80_0000 {
        e.tick_spacing
    } else {
        0
    };
    let id = pool_id(e.currency0, e.currency1, e.fee, tick_spacing, e.hooks);
    let initial_sqrt_price = match e.sqrt_price_x96.to_u128() {
        Some(v) => v,
        None => u128::MAX,
    };
    DiscoveredPool {
        pool_id: id,
        currency0: e.currency0,
        currency1: e.currency1,
        fee: e.fee,
        tick_spacing: e.tick_spacing,
        hooks: e.hooks,
        initial_sqrt_price,
    }
}

/// The pools given by the `Initialize` events whose two tokens are among
/// `tokens` and which are safe, in event order.
pub fn select_discovered_pools(events: &Vec<InitializeEvent>, tokens: &Vec<Address>) -> (r: Vec<DiscoveredPool>)
    requires
        forall|i: int| 0 <= i < events@.len() ==> #[trigger] events@[i].fee < 0x100_0000,
    ensures
        r@.len() == spec_selected_events(events@, tokens@).len(),
        forall|i: int| 0 <= i < r@.len() ==> spec_discovered_from(#[trigger] r@[i], spec_selected_events(events@, tokens@)[i]),
{
    let mut out: Vec<DiscoveredPool> = Vec::new();
    let mut i: usize = 0;
    while i < events.len()
        invariant
            i <= events@.len(),
            forall|k: int| 0 <= k < events@.len() ==> #[trigger] events@[k].fee < 0x100_0000,
            out@.len() == spec_selected_events(events@.take(i as int), tokens@).len(),
            forall|k: int|
                0 <= k < out@.len() ==> spec_discovered_from(
                    #[trigger] out@[k],
                    spec_selected_events(events@.take(i as int), tokens@)[k],
                ),
        decreases events.len() - i,
    {
        let e = &events[i];
        proof {
            assert(events@.take(i + 1).drop_last() == events@.take(i as int));
            assert(events@.take(i + 1).last() == events@[i as int]);
        }
        let wanted = contains_address(tokens, e.currency0) && contains_address(tokens, e.currency1)
            && is_pool_safe_for_arb(e.fee, e.hooks);
        if wanted {
            let d = discovered_pool(e);
            out.push(d);
        }
        i = i + 1;
    }
    assert(events@.take(events@.len() as int) == events@);
    out
}

/// A discovered pool's state is worth reading when the pool is safe and
/// both its tokens are monitored.
pub open spec fn spec_state_wanted(d: DiscoveredPool) -> bool {
    &&& spec_pool_safe(d.fee, d.hooks)
    &&& spec_monitored(d.currency0)
    &&& spec_monitored(d.currency1)
}

/// Whether to read a discovered pool's state.
pub fn state_wanted(d: &DiscoveredPool) -> (r: bool)
    ensures
        r == spec_state_wanted(*d),
{
    is_pool_safe_for_arb(d.fee, d.hooks) && is_monitored_token(d.currency0) && is_monitored_token(d.currency1)
}

/// The pool read back from the state view: none when it is not worth
/// reading or not initialized (zero price); its address is the last 20
/// bytes of its id and its fee the LP fee read.
pub fn pool_from_state(d: &DiscoveredPool, sqrt_price_x96: U256, liquidity: u128, lp_fee: u32) -> (r: Option<Pool>)
    ensures
        !spec_state_wanted(*d) || sqrt_price_x96.value() == 0 ==> r is None,
        spec_state_wanted(*d) && sqrt_price_x96.value() != 0 ==> (r matches Some(p) && spec_is_v4_pool(
            p,
            d.pool_id@,
            d.currency0,
            d.currency1,
            sqrt_price_x96,
            liquidity,
            lp_fee,
        )),
{
    if !state_wanted(d) {
        return None;
    }
    let uninitialized = match sqrt_price_x96.to_u128() {
        Some(v) => v == 0,
        None => false,
    };
    if uninitialized {
        return None;
    }
    Some(v4_pool(&d.pool_id, d.currency0, d.currency1, sqrt_price_x96, liquidity, lp_fee))
}

/// `p` is the V4 pool with this id, tokens and state.
pub open spec fn spec_is_v4_pool(
    p: Pool,
    pool_id: Seq<u8>,
    token0: Address,
    token1: Address,
    sqrt_price_x96: U256,
    liquidity: u128,
    lp_fee: u32,
) -> bool {
    &&& spec_address_bytes(p.address) == pool_id.subrange(12, 32)
    &&& p.token0 == token0
    &&& p.token1 == token1
    &&& p.fee == lp_fee
    &&& p.dex == Dex::UniswapV4
    &&& p.liquidity.value() == liquidity
    &&& p.sqrt_price_x96 == sqrt_price_x96
    &&& p.decimals0 == spec_decimals(token0)
    &&& p.decimals1 == spec_decimals(token1)
}

/// The V4 pool with this id, tokens and state; a V4 pool has no address of
/// its own, so the last 20 bytes of its id stand for one.
fn v4_pool(pool_id: &[u8; 32], token0: Address, token1: Address, sqrt_price_x96: U256, liquidity: u128, lp_fee: u32) -> (r: Pool)
    ensures
        spec_is_v4_pool(r, pool_id@, token0, token1, sqrt_price_x96, liquidity, lp_fee),
{
    Pool {
        address: address_from_word(pool_id),
        token0,
        token1,
        fee: lp_fee,
        dex: Dex::UniswapV4,
        liquidity: U256::from_u128(liquidity),
        sqrt_price_x96,
        decimals0: decimals(token0),
        decimals1: decimals(token1),
    }
}

/// A pool read back is kept when it holds liquidity, at least
/// `V4_MIN_LIQUIDITY`, and its price (as the caller computed it) is valid.
pub fn keep_v4_pool(pool: &Pool, price_valid: bool) -> (r: bool)
    ensures
        r == (pool.liquidity.value() > 0 && price_valid && pool.liquidity.value() >= V4_MIN_LIQUIDITY),
{
    pool.has_sufficient_liquidity(1) && price_valid && pool.has_sufficient_liquidity(V4_MIN_LIQUIDITY)
}

/// The key probed for two tokens, a fee and a tick spacing: the tokens in
/// byte order and no hooks.
pub open spec fn spec_probe_key(a: Address, b: Address, fee: u32, tick_spacing: i32) -> V4PoolKey {
    V4PoolKey {
        currency0: if address_lt(a, b) { a } else { b },
        currency1: if address_lt(a, b) { b } else { a },
        fee,
        tick_spacing,
        hooks: Address { high: 0, mid: 0, low: 0 },
    }
}

/// The keys probed for two tokens and one fee, over the tick spacings that
/// are a usual match for the fee.
pub open spec fn spec_spacing_probes(a: Address, b: Address, fee: u32, spacings: Seq<i32>) -> Seq<V4PoolKey>
    decreases spacings.len(),
{
    if spacings.len() == 0 {
        Seq::empty()
    } else {
        spec_spacing_probes(a, b, fee, spacings.drop_last()) + if spec_valid_fee_tick_combo(fee, spacings.last()) {
            seq![spec_probe_key(a, b, fee, spacings.last())]
        } else {
            Seq::empty()
        }
    }
}

/// The keys probed for two tokens, fee by fee.
pub open spec fn spec_fee_probes(a: Address, b: Address, fees: Seq<u32>, spacings: Seq<i32>) -> Seq<V4PoolKey>
    decreases fees.len(),
{
    if fees.len() == 0 {
        Seq::empty()
    } else {
        spec_fee_probes(a, b, fees.drop_last(), spacings) + spec_spacing_probes(a, b, fees.last(), spacings)
    }
}

/// The keys probed for token `a` with each of `partners`, in order.
pub open spec fn spec_partner_probes(a: Address, partners: Seq<Address>, fees: Seq<u32>, spacings: Seq<i32>) -> Seq<V4PoolKey>
    decreases partners.len(),
{
    if partners.len() == 0 {
        Seq::empty()
    } else {
        spec_partner_probes(a, partners.drop_last(), fees, spacings) + spec_fee_probes(a, partners.last(), fees, spacings)
    }
}

/// The keys probed for the token pairs `(i, j)`, `i < j`, from token `i`
/// on.
pub open spec fn spec_probes_from(tokens: Seq<Address>, fees: Seq<u32>, spacings: Seq<i32>, i: int) -> Seq<V4PoolKey>
    decreases tokens.len() - i,
{
    if i >= tokens.len() {
        Seq::empty()
    } else {
        spec_partner_probes(tokens[i], tokens.subrange(i + 1, tokens.len() as int), fees, spacings)
            + spec_probes_from(tokens, fees, spacings, i + 1)
    }
}

fn push_spacing_probes(out: &mut Vec<V4PoolKey>, a: Address, b: Address, fee: u32, spacings: &Vec<i32>)
    ensures
        final(out)@ == old(out)@ + spec_spacing_probes(a, b, fee, spacings@),
{
    let ghost start = out@;
    let (token0, token1) = if address_less(a, b) {
        (a, b)
    } else {
        (b, a)
    };
    let mut k: usize = 0;
    while k < spacings.len()
        invariant
            k <= spacings@.len(),
            out@ == start + spec_spacing_probes(a, b, fee, spacings@.take(k as int)),
            token0 == spec_probe_key(a, b, fee, 0).currency0,
            token1 == spec_probe_key(a, b, fee, 0).currency1,
        decreases spacings.len() - k,
    {
        proof {
            assert(spacings@.take(k + 1).drop_last() == spacings@.take(k as int));
            assert(spacings@.take(k + 1).last() == spacings@[k as int]);
        }
        let ts = spacings[k];
        if is_valid_fee_tick_combo(fee, ts) {
            out.push(V4PoolKey { currency0: token0, currency1: token1, fee, tick_spacing: ts, hooks: Address { high: 0, mid: 0, low: 0 } });
        }
        proof {
            assert(out@ == start + spec_spacing_probes(a, b, fee, spacings@.take(k + 1)));
        }
        k = k + 1;
    }
    assert(spacings@.take(spacings@.len() as int) == spacings@);
}

fn push_fee_probes(out: &mut Vec<V4PoolKey>, a: Address, b: Address, fees: &Vec<u32>, spacings: &Vec<i32>)
    ensures
        final(out)@ == old(out)@ + spec_fee_probes(a, b, fees@, spacings@),
{
    let ghost start = out@;
    let mut f: usize = 0;
    while f < fees.len()
        invariant
            f <= fees@.len(),
            out@ == start + spec_fee_probes(a, b, fees@.take(f as int), spacings@),
        decreases fees.len() - f,
    {
        proof {
            assert(fees@.take(f + 1).drop_last() == fees@.take(f as int));
            assert(fees@.take(f + 1).last() == fees@[f as int]);
        }
        push_spacing_probes(out, a, b, fees[f], spacings);
        proof {
            assert(out@ == start + spec_fee_probes(a, b, fees@.take(f + 1), spacings@));
        }
        f = f + 1;
    }
    assert(fees@.take(fees@.len() as int) == fees@);
}

fn push_partner_probes(out: &mut Vec<V4PoolKey>, tokens: &Vec<Address>, i: usize, fees: &Vec<u32>, spacings: &Vec<i32>)
    requires
        i < tokens@.len(),
    ensures
        final(out)@ == old(out)@ + spec_partner_probes(
            tokens@[i as int],
            tokens@.subrange(i + 1, tokens@.len() as int),
            fees@,
            spacings@,
        ),
{
    let ghost start = out@;
    let ghost a = tokens@[i as int];
    let n = tokens.len();
    let mut j: usize = i + 1;
    while j < n
        invariant
            n == tokens@.len(),
            i < j <= n,
            a == tokens@[i as int],
            out@ == start + spec_partner_probes(a, tokens@.subrange(i + 1, j as int), fees@, spacings@),
        decreases n - j,
    {
        proof {
            assert(tokens@.subrange(i + 1, j + 1).drop_last() == tokens@.subrange(i + 1, j as int));
            assert(tokens@.subrange(i + 1, j + 1).last() == tokens@[j as int]);
        }
        push_fee_probes(out, tokens[i], tokens[j], fees, spacings);
        proof {
            assert(out@ == start + spec_partner_probes(a, tokens@.subrange(i + 1, j + 1), fees@, spacings@));
        }
        j = j + 1;
    }
}

/// The pool keys to probe when pools are looked up key by key: each pair
/// of tokens (in byte order), each fee and each tick spacing that is a
/// usual match for the fee, without hooks.
pub fn v4_probe_keys(tokens: &Vec<Address>, fees: &Vec<u32>, spacings: &Vec<i32>) -> (r: Vec<V4PoolKey>)
    ensures
        r@ == spec_probes_from(tokens@, fees@, spacings@, 0),
{
    let mut out: Vec<V4PoolKey> = Vec::new();
    let n = tokens.len();
    let mut i: usize = 0;
    while i < n
        invariant
            n == tokens@.len(),
            i <= n,
            spec_probes_from(tokens@, fees@, spacings@, 0) == out@ + spec_probes_from(tokens@, fees@, spacings@, i as int),
        decreases n - i,
    {
        let ghost before = out@;
        push_partner_probes(&mut out, tokens, i, fees, spacings);
        proof {
            let p = spec_partner_probes(tokens@[i as int], tokens@.subrange(i + 1, n as int), fees@, spacings@);
            assert(spec_probes_from(tokens@, fees@, spacings@, i as int) == p + spec_probes_from(
                tokens@,
                fees@,
                spacings@,
                i + 1,
            ));
            assert(before + (p + spec_probes_from(tokens@, fees@, spacings@, i + 1)) == out@ + spec_probes_from(
                tokens@,
                fees@,
                spacings@,
                i + 1,
            ));
        }
        i = i + 1;
    }
    assert(out@ + spec_probes_from(tokens@, fees@, spacings@, n as int) == out@);
    out
}

/// The id of a probed key (its tick spacing zero when it does not fit 24
/// bits).
pub fn probe_pool_id(key: &V4PoolKey) -> (r: [u8; 32])
    requires
        key.fee < 0x100_0000,
    ensures
        r@ == spec_pool_id(key.currency0, key.currency1, key.fee, spec_key_tick_spacing(key.tick_spacing), key.hooks),
{
    let tick_spacing = if -0x80_0000 <= key.tick_spacing && key.tick_spacing < 0x80_0000 {
        key.tick_spacing
    } else {
        0
    };
    pool_id(key.currency0, key.currency1, key.fee, tick_spacing, key.hooks)
}

/// A probed pool exists when its price is set, and is used when its LP fee
/// is static.
pub open spec fn spec_slot0_usable(sqrt_price_x96: U256, lp_fee: u32) -> bool {
    sqrt_price_x96.value() != 0 && lp_fee & DYNAMIC_FEE_FLAG == 0
}

/// Whether a probed pool's slot0 makes it worth reading further.
pub fn slot0_usable(sqrt_price_x96: U256, lp_fee: u32) -> (r: bool)
    ensures
        r == spec_slot0_usable(sqrt_price_x96, lp_fee),
{
    let zero = match sqrt_price_x96.to_u128() {
        Some(v) => v == 0,
        None => false,
    };
    !zero && lp_fee & DYNAMIC_FEE_FLAG == 0
}

/// The pool found at a probed key, from its id and state.
pub fn probed_pool(key: &V4PoolKey, pool_id: &[u8; 32], sqrt_price_x96: U256, lp_fee: u32, liquidity: u128) -> (r: Pool)
    ensures
        spec_is_v4_pool(r, pool_id@, key.currency0, key.currency1, sqrt_price_x96, liquidity, lp_fee),
{
    v4_pool(pool_id, key.currency0, key.currency1, sqrt_price_x96, liquidity, lp_fee)
}

/// A probed key is hookless, has its tokens in byte order, and pairs its
/// fee with a usual tick spacing.
pub open spec fn spec_probe_ok(k: V4PoolKey) -> bool {
    &&& !address_lt(k.currency1, k.currency0)
    &&& spec_no_hooks(k.hooks)
    &&& spec_valid_fee_tick_combo(k.fee, k.tick_spacing)
}

/// Every key of a list is a proper probe.
pub open spec fn spec_probes_ok(s: Seq<V4PoolKey>) -> bool {
    forall|i: int| 0 <= i < s.len() ==> spec_probe_ok(#[trigger] s[i])
}

proof fn lemma_probes_concat(a: Seq<V4PoolKey>, b: Seq<V4PoolKey>)
    requires
        spec_probes_ok(a),
        spec_probes_ok(b),
    ensures
        spec_probes_ok(a + b),
{
    assert forall|i: int| 0 <= i < (a + b).len() implies spec_probe_ok(#[trigger] (a + b)[i]) by {
        if i < a.len() {
            assert((a + b)[i] == a[i]);
        } else {
            assert((a + b)[i] == b[i - a.len()]);
        }
    }
}

proof fn lemma_spacing_probes_ok(a: Address, b: Address, fee: u32, spacings: Seq<i32>)
    ensures
        spec_probes_ok(spec_spacing_probes(a, b, fee, spacings)),
    decreases spacings.len(),
{
    if spacings.len() > 0 {
        lemma_spacing_probes_ok(a, b, fee, spacings.drop_last());
        let tail = if spec_valid_fee_tick_combo(fee, spacings.last()) {
            seq![spec_probe_key(a, b, fee, spacings.last())]
        } else {
            Seq::empty()
        };
        assert(spec_probes_ok(tail));
        lemma_probes_concat(spec_spacing_probes(a, b, fee, spacings.drop_last()), tail);
    }
}

proof fn lemma_fee_probes_ok(a: Address, b: Address, fees: Seq<u32>, spacings: Seq<i32>)
    ensures
        spec_probes_ok(spec_fee_probes(a, b, fees, spacings)),
    decreases fees.len(),
{
    if fees.len() > 0 {
        lemma_fee_probes_ok(a, b, fees.drop_last(), spacings);
        lemma_spacing_probes_ok(a, b, fees.last(), spacings);
        lemma_probes_concat(spec_fee_probes(a, b, fees.drop_last(), spacings), spec_spacing_probes(a, b, fees.last(), spacings));
    }
}

proof fn lemma_partner_probes_ok(a: Address, partners: Seq<Address>, fees: Seq<u32>, spacings: Seq<i32>)
    ensures
        spec_probes_ok(spec_partner_probes(a, partners, fees, spacings)),
    decreases partners.len(),
{
    if partners.len() > 0 {
        lemma_partner_probes_ok(a, partners.drop_last(), fees, spacings);
        lemma_fee_probes_ok(a, partners.last(), fees, spacings);
        lemma_probes_concat(
            spec_partner_probes(a, partners.drop_last(), fees, spacings),
            spec_fee_probes(a, partners.last(), fees, spacings),
        );
    }
}

proof fn lemma_probes_from_ok(tokens: Seq<Address>, fees: Seq<u32>, spacings: Seq<i32>, i: int)
    ensures
        spec_probes_ok(spec_probes_from(tokens, fees, spacings, i)),
    decreases tokens.len() - i,
{
    if i < tokens.len() {
        lemma_partner_probes_ok(tokens[i], tokens.subrange(i + 1, tokens.len() as int), fees, spacings);
        lemma_probes_from_ok(tokens, fees, spacings, i + 1);
        lemma_probes_concat(
            spec_partner_probes(tokens[i], tokens.subrange(i + 1, tokens.len() as int), fees, spacings),
            spec_probes_from(tokens, fees, spacings, i + 1),
        );
    }
}

/// Every key probed has its currencies sorted (currency0 before
/// currency1), no hooks, and a tick spacing usual for its fee.
pub proof fn law_probe_keys_proper(tokens: Seq<Address>, fees: Seq<u32>, spacings: Seq<i32>)
    ensures
        spec_probes_ok(spec_probes_from(tokens, fees, spacings, 0)),
{
    lemma_probes_from_ok(tokens, fees, spacings, 0);
}

/// Every pool kept from the `Initialize` events is safe and joins two of
/// the monitored tokens, and no more pools are kept than there are events.
pub proof fn law_discovered_pools_safe(events: Seq<InitializeEvent>, tokens: Seq<Address>)
    ensures
        forall|i: int|
            0 <= i < spec_selected_events(events, tokens).len() ==> spec_event_selected(
                #[trigger] spec_selected_events(events, tokens)[i],
                tokens,
            ),
        spec_selected_events(events, tokens).len() <= events.len(),
    decreases events.len(),
{
    if events.len() > 0 {
        law_discovered_pools_safe(events.drop_last(), tokens);
        let rest = spec_selected_events(events.drop_last(), tokens);
        if spec_event_selected(events.last(), tokens) {
            assert forall|i: int| 0 <= i < rest.push(events.last()).len() implies spec_event_selected(
                #[trigger] rest.push(events.last())[i],
                tokens,
            ) by {
                if i < rest.len() {
                    assert(rest.push(events.last())[i] == rest[i]);
                }
            }
        }
    }
}

} // verus!
