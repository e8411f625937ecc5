//! The calls a price batch makes to each pool: `slot0()` of a V3 pool,
//! `getActiveId()` and `getBinStep()` of an LFJ pair, `getReserves()` of a
//! V2-style pool, and `getBalances()` of the arbitrage contract. Each takes
//! no argument, so its calldata is its selector: the first four bytes of
//! the Keccak-256 of its signature. A batch of them goes to Multicall3's
//! `aggregate3`.

use crate::address::{address_bytes, spec_address_bytes};
use crate::graph::copied;
use crate::multicall::{CallType, PriceCall};
use alloy::primitives::{Address as AAddress, Bytes};
use alloy::sol_types::sol_data::{Address as SolAddress, Array, Bool, Bytes as SolBytes};
use alloy::sol_types::SolType;
use crate::routers::PoolConfig;
use crate::text::{push_str, str_chars};
use crate::v4_pools::{keccak256, spec_keccak256};
use vstd::prelude::*;

verus! {

/// The bytes of an ASCII text, one per character.
pub open spec fn spec_ascii_bytes(s: Seq<char>) -> Seq<u8> {
    s.map_values(|c: char| c as u8)
}

/// The selector of a function: the first four bytes of the Keccak-256 of
/// its signature.
pub open spec fn spec_selector(signature: Seq<char>) -> Seq<u8> {
    spec_keccak256(spec_ascii_bytes(signature)).take(4)
}

/// The selector of the function with this signature.
pub fn selector(signature: &str) -> (r: Vec<u8>)
    ensures
        r@ == spec_selector(signature@),
{
    let cs = str_chars(signature);
    let mut bytes: Vec<u8> = Vec::new();
    let mut i: usize = 0;
    while i < cs.len()
        invariant
            i <= cs@.len(),
            cs@ == signature@,
            bytes@ == spec_ascii_bytes(cs@.take(i as int)),
        decreases cs.len() - i,
    {
        bytes.push(cs[i] as u8);
        i = i + 1;
        assert(spec_ascii_bytes(cs@.take(i as int)) =~= spec_ascii_bytes(cs@.take(i - 1)).push(
            cs@[i - 1] as u8,
        ));
    }
    assert(cs@.take(i as int) =~= cs@);
    let digest = keccak256(&bytes);
    let mut r: Vec<u8> = Vec::new();
    let mut k: usize = 0;
    while k < 4
        invariant
            k <= 4,
            digest@.len() == 32,
            r@ == digest@.take(k as int),
        decreases 4 - k,
    {
        r.push(digest[k]);
        k = k + 1;
        assert(r@ =~= digest@.take(k as int));
    }
    r
}

/// `r` is the call `name` makes to `pool` with this calldata and kind.
pub open spec fn spec_price_call(
    r: PriceCall,
    pool: PoolConfig,
    name: Seq<char>,
    calldata: Seq<u8>,
    call_type: CallType,
) -> bool {
    &&& r.pool_name@ == name
    &&& r.pool_address == pool.address
    &&& r.calldata@ == calldata
    &&& r.fee_bps == pool.fee_bps
    &&& r.call_type == call_type
}

fn price_call(pool: &PoolConfig, name: String, signature: &str, call_type: CallType) -> (r: PriceCall)
    ensures
        spec_price_call(r, *pool, name@, spec_selector(signature@), call_type),
{
    PriceCall {
        pool_name: name,
        pool_address: pool.address,
        calldata: selector(signature),
        fee_bps: pool.fee_bps,
        call_type,
    }
}

fn pool_name(pool: &PoolConfig) -> (r: String)
    ensures
        r@ == pool.name@,
{
    let mut s = String::new();
    push_str(&mut s, pool.name);
    s
}

/// The `slot0()` call of a V3 pool, under the pool's name.
pub fn create_slot0_call(pool: &PoolConfig) -> (r: PriceCall)
    ensures
        spec_price_call(r, *pool, pool.name@, spec_selector("slot0()"@), CallType::V3Slot0),
{
    price_call(pool, pool_name(pool), "slot0()", CallType::V3Slot0)
}

/// The `getActiveId()` call of an LFJ pair, under the pool's name.
pub fn create_lfj_active_id_call(pool: &PoolConfig) -> (r: PriceCall)
    ensures
        spec_price_call(r, *pool, pool.name@, spec_selector("getActiveId()"@), CallType::LfjActiveId),
{
    price_call(pool, pool_name(pool), "getActiveId()", CallType::LfjActiveId)
}

/// The `getBinStep()` call of an LFJ pair, under the pool's name followed
/// by "_binStep".
pub fn create_lfj_bin_step_call(pool: &PoolConfig) -> (r: PriceCall)
    ensures
        spec_price_call(
            r,
            *pool,
            pool.name@ + "_binStep"@,
            spec_selector("getBinStep()"@),
            CallType::LfjBinStep,
        ),
{
    let mut name = pool_name(pool);
    push_str(&mut name, "_binStep");
    price_call(pool, name, "getBinStep()", CallType::LfjBinStep)
}

/// The `getReserves()` call of a V2-style pool, under the pool's name.
pub fn create_monday_reserves_call(pool: &PoolConfig) -> (r: PriceCall)
    ensures
        spec_price_call(r, *pool, pool.name@, spec_selector("getReserves()"@), CallType::MondayReserves),
{
    price_call(pool, pool_name(pool), "getReserves()", CallType::MondayReserves)
}

/// The calldata of the arbitrage contract's `getBalances()`.
pub fn balances_calldata() -> (r: Vec<u8>)
    ensures
        r@ == spec_selector("getBalances()"@),
{
    selector("getBalances()")
}

/// The ABI encoding of `aggregate3`'s parameter, an array of `(address
/// target, bool allowFailure, bytes callData)`, as `alloy` computes it.
pub uninterp spec fn spec_aggregate3_params(calls: Seq<(Seq<u8>, bool, Seq<u8>)>) -> Seq<u8>;

/// `alloy`'s ABI encoding (`SolType::abi_encode_params`) of the parameter
/// of `aggregate3((address,bool,bytes)[])`. The bytes depend on the calls
/// alone; their layout is not stated.
#[verifier::external_body]
fn abi_encode_aggregate3_params(calls: Vec<([u8; 20], bool, Vec<u8>)>) -> (r: Vec<u8>)
    ensures
        r@ == spec_aggregate3_params(calls@.map_values(|c: ([u8; 20], bool, Vec<u8>)| (c.0@, c.1, c.2@))),
{
    let calls: Vec<(AAddress, bool, Bytes)> = calls.into_iter().map(|c| (AAddress::from(c.0), c.1, Bytes::from(c.2))).collect();
    <(Array<(SolAddress, Bool, SolBytes)>,) as SolType>::abi_encode_params(&(calls,))
}

/// The signature of Multicall3's `aggregate3`.
pub open spec fn spec_aggregate3_signature() -> Seq<char> {
    "aggregate3((address,bool,bytes)[])"@
}

/// Each price call as Multicall3 takes it: its pool, failure allowed, its
/// calldata.
pub open spec fn spec_call3s(calls: Seq<PriceCall>) -> Seq<(Seq<u8>, bool, Seq<u8>)> {
    calls.map_values(|c: PriceCall| (spec_address_bytes(c.pool_address), true, c.calldata@))
}

/// The calldata of one Multicall3 round trip: every call to its pool, each
/// allowed to fail on its own.
pub fn aggregate3_calldata(calls: &Vec<PriceCall>) -> (r: Vec<u8>)
    ensures
        r@ == spec_selector(spec_aggregate3_signature()) + spec_aggregate3_params(spec_call3s(calls@)),
{
    let mut items: Vec<([u8; 20], bool, Vec<u8>)> = Vec::new();
    let mut i: usize = 0;
    while i < calls.len()
        invariant
            i <= calls@.len(),
            items@.len() == i,
            forall|j: int|
                0 <= j < i ==> (#[trigger] items@[j]).0@ == spec_address_bytes(calls@[j].pool_address)
                    && items@[j].1 && items@[j].2@ == calls@[j].calldata@,
        decreases calls.len() - i,
    {
        items.push((address_bytes(calls[i].pool_address), true, copied(&calls[i].calldata)));
        i = i + 1;
    }
    assert(items@.map_values(|c: ([u8; 20], bool, Vec<u8>)| (c.0@, c.1, c.2@)) =~= spec_call3s(calls@));
    let params = abi_encode_aggregate3_params(items);
    let mut out = selector("aggregate3((address,bool,bytes)[])");
    let ghost start = out@;
    let mut k: usize = 0;
    while k < params.len()
        invariant
            k <= params@.len(),
            out@ == start + params@.take(k as int),
        decreases params.len() - k,
    {
        out.push(params[k]);
        k = k + 1;
        assert(params@.take(k as int) =~= params@.take(k - 1).push(params@[k - 1]));
    }
    assert(params@.take(k as int) =~= params@);
    out
}

/// Append an address's ABI word: twelve zero bytes, then its twenty bytes.
fn push_address_word(out: &mut Vec<u8>, a: crate::address::Address)
    ensures
        final(out)@ == old(out)@ + crate::v4_pools::spec_address_word(spec_address_bytes(a)),
{
    let ghost start = out@;
    let mut k: usize = 0;
    while k < 12
        invariant
            k <= 12,
            out@ == start + crate::v4_pools::spec_zeros(k as nat),
        decreases 12 - k,
    {
        out.push(0);
        k = k + 1;
        assert(crate::v4_pools::spec_zeros(k as nat) =~= crate::v4_pools::spec_zeros((k - 1) as nat).push(0));
    }
    let b = address_bytes(a);
    let ghost mid = out@;
    let mut j: usize = 0;
    while j < 20
        invariant
            j <= 20,
            b@.len() == 20,
            out@ == mid + b@.take(j as int),
        decreases 20 - j,
    {
        out.push(b[j]);
        j = j + 1;
        assert(b@.take(j as int) =~= b@.take(j - 1).push(b@[j - 1]));
    }
    assert(b@.take(20) =~= b@);
    assert(out@ =~= start + crate::v4_pools::spec_address_word(spec_address_bytes(a)));
}

/// The calldata of an ERC-20 `balanceOf(address)`: the selector, then the
/// owner's address in a word.
pub fn balance_of_calldata(owner: crate::address::Address) -> (r: Vec<u8>)
    ensures
        r@ == spec_selector("balanceOf(address)"@) + crate::v4_pools::spec_address_word(spec_address_bytes(owner)),
{
    let mut out = selector("balanceOf(address)");
    push_address_word(&mut out, owner);
    out
}

/// The calldata of an ERC-20 `allowance(address,address)`: the selector,
/// then the owner's and the spender's address words.
pub fn allowance_calldata(owner: crate::address::Address, spender: crate::address::Address) -> (r: Vec<u8>)
    ensures
        r@ == spec_selector("allowance(address,address)"@) + crate::v4_pools::spec_address_word(
            spec_address_bytes(owner),
        ) + crate::v4_pools::spec_address_word(spec_address_bytes(spender)),
{
    let mut out = selector("allowance(address,address)");
    push_address_word(&mut out, owner);
    push_address_word(&mut out, spender);
    out
}

/// The calldata of an ERC-20 `approve(address,uint256)` of the largest
/// amount: the selector, the spender's address word, then a word of all
/// ones.
pub fn approve_max_calldata(spender: crate::address::Address) -> (r: Vec<u8>)
    ensures
        r@ == spec_selector("approve(address,uint256)"@) + crate::v4_pools::spec_address_word(
            spec_address_bytes(spender),
        ) + Seq::new(32, |i: int| 0xffu8),
{
    let mut out = selector("approve(address,uint256)");
    push_address_word(&mut out, spender);
    let ghost start = out@;
    let mut k: usize = 0;
    while k < 32
        invariant
            k <= 32,
            out@ == start + Seq::new(k as nat, |i: int| 0xffu8),
        decreases 32 - k,
    {
        out.push(0xff);
        k = k + 1;
        assert(Seq::new(k as nat, |i: int| 0xffu8) =~= Seq::new((k - 1) as nat, |i: int| 0xffu8).push(0xff));
    }
    out
}

/// `alloy`'s ABI encoding (`SolType::abi_encode_params`) of a single
/// `uint256`: its 32-byte word, most significant byte first.
#[verifier::external_body]
fn abi_encode_uint256(v: crate::uint::U256) -> (r: Vec<u8>)
    ensures
        r@ == crate::lfj_calldata::spec_be_word(v.value()),
{
    <(alloy::sol_types::sol_data::Uint<256>,) as SolType>::abi_encode_params(&(alloy::primitives::U256::from_limbs(v.limbs),))
}

/// The calldata of WMON's `deposit()` (wrapping the MON sent along).
pub fn deposit_calldata() -> (r: Vec<u8>)
    ensures
        r@ == spec_selector("deposit()"@),
{
    selector("deposit()")
}

/// Append some bytes.
fn append(out: &mut Vec<u8>, tail: &Vec<u8>)
    ensures
        final(out)@ == old(out)@ + tail@,
{
    let ghost start = out@;
    let mut k: usize = 0;
    while k < tail.len()
        invariant
            k <= tail@.len(),
            out@ == start + tail@.take(k as int),
        decreases tail.len() - k,
    {
        out.push(tail[k]);
        k = k + 1;
        assert(tail@.take(k as int) =~= tail@.take(k - 1).push(tail@[k - 1]));
    }
    assert(tail@.take(k as int) =~= tail@);
}

/// The calldata of WMON's `withdraw(uint256)`: the selector, then the
/// amount's word.
pub fn withdraw_calldata(amount: crate::uint::U256) -> (r: Vec<u8>)
    ensures
        r@ == spec_selector("withdraw(uint256)"@) + crate::lfj_calldata::spec_be_word(amount.value()),
{
    let mut out = selector("withdraw(uint256)");
    append(&mut out, &abi_encode_uint256(amount));
    out
}

/// The calldata of an ERC-20 `transfer(address,uint256)`: the selector,
/// the recipient's address word, the amount's word.
pub fn transfer_calldata(to: crate::address::Address, amount: crate::uint::U256) -> (r: Vec<u8>)
    ensures
        r@ == spec_selector("transfer(address,uint256)"@) + crate::v4_pools::spec_address_word(spec_address_bytes(to))
            + crate::lfj_calldata::spec_be_word(amount.value()),
{
    let mut out = selector("transfer(address,uint256)");
    push_address_word(&mut out, to);
    append(&mut out, &abi_encode_uint256(amount));
    out
}

/// The calldata of the arbitrage contract's `withdrawToken(address,uint256)`:
/// the selector, the token's address word, the amount's word.
pub fn withdraw_token_calldata(token: crate::address::Address, amount: crate::uint::U256) -> (r: Vec<u8>)
    ensures
        r@ == spec_selector("withdrawToken(address,uint256)"@) + crate::v4_pools::spec_address_word(
            spec_address_bytes(token),
        ) + crate::lfj_calldata::spec_be_word(amount.value()),
{
    let mut out = selector("withdrawToken(address,uint256)");
    push_address_word(&mut out, token);
    append(&mut out, &abi_encode_uint256(amount));
    out
}

/// The calldata of the arbitrage contract's `withdrawAllToken(address)`:
/// the selector, then the token's address word.
pub fn withdraw_all_token_calldata(token: crate::address::Address) -> (r: Vec<u8>)
    ensures
        r@ == spec_selector("withdrawAllToken(address)"@) + crate::v4_pools::spec_address_word(spec_address_bytes(token)),
{
    let mut out = selector("withdrawAllToken(address)");
    push_address_word(&mut out, token);
    out
}

} // verus!
