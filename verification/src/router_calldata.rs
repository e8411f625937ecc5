//! The bytes of each router call: its selector, then its ABI-encoded
//! parameters. The `exactInputSingle` of a SwapRouter02-style router takes
//! a static tuple of seven values, that of an ISwapRouter-style router one
//! of eight (the deadline inside); the LFJ router's swap takes a path of
//! arrays.

use crate::address::{address_bytes, spec_address_bytes, Address};
use crate::lfj::pow256;
use crate::lfj_calldata::{lfj_swap_calldata, spec_be_word, spec_lfj_swap_calldata};
use crate::pool_calls::{selector, spec_selector};
use crate::routers::RouterCall;
use crate::uint::U256;
use crate::v4_pools::spec_address_word;
use alloy::primitives::{aliases::U24, Address as AAddress, U160, U256 as AU256};
use alloy::sol_types::sol_data::{Address as SolAddress, Bytes as SolBytes, Uint};
use crate::config::{spec_contract_router, spec_router_id, ContractRouter, RouterType};
use crate::v4_pools::spec_zeros;
use alloy::sol_types::SolType;
use vstd::prelude::*;

verus! {

/// The signature of SwapRouter02's `exactInputSingle`.
pub open spec fn spec_router02_signature() -> Seq<char> {
    "exactInputSingle((address,address,uint24,address,uint256,uint256,uint160))"@
}

/// The signature of ISwapRouter's `exactInputSingle`.
pub open spec fn spec_iswap_signature() -> Seq<char> {
    "exactInputSingle((address,address,uint24,address,uint256,uint256,uint256,uint160))"@
}

/// The parameters of SwapRouter02's `exactInputSingle`, each in its word.
pub open spec fn spec_exact_input_params(
    token_in: Address,
    token_out: Address,
    fee: u32,
    recipient: Address,
    amount_in: U256,
    amount_out_minimum: U256,
    sqrt_price_limit_x96: U256,
) -> Seq<u8> {
    spec_address_word(spec_address_bytes(token_in)) + spec_address_word(spec_address_bytes(token_out))
        + spec_be_word(fee as int) + spec_address_word(spec_address_bytes(recipient)) + spec_be_word(
        amount_in.value(),
    ) + spec_be_word(amount_out_minimum.value()) + spec_be_word(sqrt_price_limit_x96.value())
}

/// The parameters of ISwapRouter's `exactInputSingle`, each in its word:
/// the deadline comes after the recipient.
pub open spec fn spec_exact_input_deadline_params(
    token_in: Address,
    token_out: Address,
    fee: u32,
    recipient: Address,
    deadline: U256,
    amount_in: U256,
    amount_out_minimum: U256,
    sqrt_price_limit_x96: U256,
) -> Seq<u8> {
    spec_address_word(spec_address_bytes(token_in)) + spec_address_word(spec_address_bytes(token_out))
        + spec_be_word(fee as int) + spec_address_word(spec_address_bytes(recipient)) + spec_be_word(
        deadline.value(),
    ) + spec_be_word(amount_in.value()) + spec_be_word(amount_out_minimum.value()) + spec_be_word(
        sqrt_price_limit_x96.value(),
    )
}

/// `alloy`'s ABI encoding (`SolType::abi_encode_params`) of the static
/// tuple `(address, address, uint24, address, uint256, uint256, uint160)`:
/// each value in a word of its own, in order. Converting the fee and the
/// price limit to their widths panics when they do not fit, which
/// `requires` leaves out.
#[verifier::external_body]
fn abi_encode_exact_input_params(
    token_in: [u8; 20],
    token_out: [u8; 20],
    fee: u32,
    recipient: [u8; 20],
    amount_in: U256,
    amount_out_minimum: U256,
    sqrt_price_limit_x96: U256,
) -> (r: Vec<u8>)
    requires
        fee < 0x100_0000,
        sqrt_price_limit_x96.value() < pow256(20),
    ensures
        r@ == spec_address_word(token_in@) + spec_address_word(token_out@) + spec_be_word(fee as int)
            + spec_address_word(recipient@) + spec_be_word(amount_in.value()) + spec_be_word(
            amount_out_minimum.value(),
        ) + spec_be_word(sqrt_price_limit_x96.value()),
{
    <(SolAddress, SolAddress, Uint<24>, SolAddress, Uint<256>, Uint<256>, Uint<160>) as SolType>::abi_encode_params(&(
        AAddress::from(token_in),
        AAddress::from(token_out),
        U24::from(fee),
        AAddress::from(recipient),
        AU256::from_limbs(amount_in.limbs),
        AU256::from_limbs(amount_out_minimum.limbs),
        U160::from(AU256::from_limbs(sqrt_price_limit_x96.limbs)),
    ))
}

/// `alloy`'s ABI encoding (`SolType::abi_encode_params`) of the static
/// tuple `(address, address, uint24, address, uint256, uint256, uint256,
/// uint160)`: each value in a word of its own, in order. Converting the fee
/// and the price limit to their widths panics when they do not fit, which
/// `requires` leaves out.
#[verifier::external_body]
fn abi_encode_exact_input_deadline_params(
    token_in: [u8; 20],
    token_out: [u8; 20],
    fee: u32,
    recipient: [u8; 20],
    deadline: U256,
    amount_in: U256,
    amount_out_minimum: U256,
    sqrt_price_limit_x96: U256,
) -> (r: Vec<u8>)
    requires
        fee < 0x100_0000,
        sqrt_price_limit_x96.value() < pow256(20),
    ensures
        r@ == spec_address_word(token_in@) + spec_address_word(token_out@) + spec_be_word(fee as int)
            + spec_address_word(recipient@) + spec_be_word(deadline.value()) + spec_be_word(amount_in.value())
            + spec_be_word(amount_out_minimum.value()) + spec_be_word(sqrt_price_limit_x96.value()),
{
    <(SolAddress, SolAddress, Uint<24>, SolAddress, Uint<256>, Uint<256>, Uint<256>, Uint<160>) as SolType>::abi_encode_params(&(
        AAddress::from(token_in),
        AAddress::from(token_out),
        U24::from(fee),
        AAddress::from(recipient),
        AU256::from_limbs(deadline.limbs),
        AU256::from_limbs(amount_in.limbs),
        AU256::from_limbs(amount_out_minimum.limbs),
        U160::from(AU256::from_limbs(sqrt_price_limit_x96.limbs)),
    ))
}

/// The call can be encoded: its fee fits 24 bits and its price limit 160
/// bits.
pub open spec fn spec_router_call_encodable(call: RouterCall) -> bool {
    match call {
        RouterCall::ExactInputSingle { fee, sqrt_price_limit_x96, .. } => fee < 0x100_0000
            && sqrt_price_limit_x96.value() < pow256(20),
        RouterCall::ExactInputSingleWithDeadline { fee, sqrt_price_limit_x96, .. } => fee < 0x100_0000
            && sqrt_price_limit_x96.value() < pow256(20),
        RouterCall::LfjSwapExactTokensForTokens { .. } => true,
    }
}

/// The calldata of a router call: the selector of its function, then its
/// parameters.
pub open spec fn spec_router_calldata(call: RouterCall) -> Seq<u8> {
    match call {
        RouterCall::ExactInputSingle {
            token_in,
            token_out,
            fee,
            recipient,
            amount_in,
            amount_out_minimum,
            sqrt_price_limit_x96,
        } => spec_selector(spec_router02_signature()) + spec_exact_input_params(
            token_in,
            token_out,
            fee,
            recipient,
            amount_in,
            amount_out_minimum,
            sqrt_price_limit_x96,
        ),
        RouterCall::ExactInputSingleWithDeadline {
            token_in,
            token_out,
            fee,
            recipient,
            deadline,
            amount_in,
            amount_out_minimum,
            sqrt_price_limit_x96,
        } => spec_selector(spec_iswap_signature()) + spec_exact_input_deadline_params(
            token_in,
            token_out,
            fee,
            recipient,
            deadline,
            amount_in,
            amount_out_minimum,
            sqrt_price_limit_x96,
        ),
        RouterCall::LfjSwapExactTokensForTokens {
            amount_in,
            amount_out_min,
            pair_bin_steps,
            versions,
            token_path,
            to,
            deadline,
        } => spec_lfj_swap_calldata(
            amount_in,
            amount_out_min,
            pair_bin_steps@,
            versions@,
            token_path@,
            to,
            deadline,
        ),
    }
}

/// `head` followed by `tail`.
fn joined(head: Vec<u8>, tail: &Vec<u8>) -> (r: Vec<u8>)
    ensures
        r@ == head@ + tail@,
{
    let mut out = head;
    let ghost start = out@;
    let mut i: usize = 0;
    while i < tail.len()
        invariant
            i <= tail@.len(),
            out@ == start + tail@.take(i as int),
        decreases tail.len() - i,
    {
        out.push(tail[i]);
        i = i + 1;
        assert(tail@.take(i as int) =~= tail@.take(i - 1).push(tail@[i - 1]));
    }
    assert(tail@.take(i as int) =~= tail@);
    out
}

/// The ABI-encoded calldata of a router call.
pub fn encode_router_call(call: &RouterCall) -> (r: Vec<u8>)
    requires
        spec_router_call_encodable(*call),
    ensures
        r@ == spec_router_calldata(*call),
{
    match call {
        RouterCall::ExactInputSingle {
            token_in,
            token_out,
            fee,
            recipient,
            amount_in,
            amount_out_minimum,
            sqrt_price_limit_x96,
        } => {
            let params = abi_encode_exact_input_params(
                address_bytes(*token_in),
                address_bytes(*token_out),
                *fee,
                address_bytes(*recipient),
                *amount_in,
                *amount_out_minimum,
                *sqrt_price_limit_x96,
            );
            joined(selector("exactInputSingle((address,address,uint24,address,uint256,uint256,uint160))"), &params)
        },
        RouterCall::ExactInputSingleWithDeadline {
            token_in,
            token_out,
            fee,
            recipient,
            deadline,
            amount_in,
            amount_out_minimum,
            sqrt_price_limit_x96,
        } => {
            let params = abi_encode_exact_input_deadline_params(
                address_bytes(*token_in),
                address_bytes(*token_out),
                *fee,
                address_bytes(*recipient),
                *deadline,
                *amount_in,
                *amount_out_minimum,
                *sqrt_price_limit_x96,
            );
            joined(
                selector("exactInputSingle((address,address,uint24,address,uint256,uint256,uint256,uint160))"),
                &params,
            )
        },
        RouterCall::LfjSwapExactTokensForTokens { .. } => {
            match lfj_swap_calldata(call) {
                Some(b) => b,
                None => Vec::new(),
            }
        },
    }
}

/// The signature of the arbitrage contract's unchecked arbitrage.
pub open spec fn spec_execute_arb_signature() -> Seq<char> {
    "executeArbUnchecked(uint8,bytes,uint8,uint24,uint256)"@
}

/// `n` bytes rounded up to whole words.
pub open spec fn spec_padding(n: nat) -> nat {
    if n % 32 == 0 {
        0
    } else {
        (32 - n % 32) as nat
    }
}

/// The parameters of `executeArbUnchecked(uint8 sellRouter, bytes
/// sellRouterData, uint8 buyRouter, uint24 buyPoolFee, uint256
/// minWmonOut)`: the head (the router data as an offset to the tail), then
/// the data's length and the data, zero-padded to whole words.
pub open spec fn spec_execute_arb_params(sell: u8, data: Seq<u8>, buy: u8, buy_pool_fee: u32, min_wmon_out: U256) -> Seq<u8> {
    spec_be_word(sell as int) + spec_be_word(0xa0) + spec_be_word(buy as int) + spec_be_word(buy_pool_fee as int)
        + spec_be_word(min_wmon_out.value()) + spec_be_word(data.len() as int) + data + spec_zeros(
        spec_padding(data.len()),
    )
}

/// `alloy`'s ABI encoding (`SolType::abi_encode_params`) of `(uint8, bytes,
/// uint8, uint24, uint256)`: the static values in their words, the bytes
/// as an offset in the head and, after the head, their length and
/// themselves padded with zeros to whole words. Converting the fee to 24
/// bits panics when it does not fit, which `requires` leaves out.
#[verifier::external_body]
fn abi_encode_execute_arb_params(sell: u8, data: &Vec<u8>, buy: u8, buy_pool_fee: u32, min_wmon_out: U256) -> (r: Vec<u8>)
    requires
        buy_pool_fee < 0x100_0000,
    ensures
        r@ == spec_execute_arb_params(sell, data@, buy, buy_pool_fee, min_wmon_out),
{
    <(Uint<8>, SolBytes, Uint<8>, Uint<24>, Uint<256>) as SolType>::abi_encode_params(&(
        sell,
        alloy::primitives::Bytes::from(data.clone()),
        buy,
        U24::from(buy_pool_fee),
        AU256::from_limbs(min_wmon_out.limbs),
    ))
}

/// The calldata of the arbitrage contract's unchecked arbitrage: sell on
/// `sell` with `sell_data` (a router call whose recipient is the contract),
/// buy back on `buy` through its pool of fee `buy_pool_fee`, at least
/// `min_wmon_out` WMON back.
pub fn execute_arb_calldata(
    sell: RouterType,
    sell_data: &Vec<u8>,
    buy: RouterType,
    buy_pool_fee: u32,
    min_wmon_out: U256,
) -> (r: Vec<u8>)
    requires
        buy_pool_fee < 0x100_0000,
    ensures
        r@ == spec_selector(spec_execute_arb_signature()) + spec_execute_arb_params(
            spec_router_id(spec_contract_router(sell)),
            sell_data@,
            spec_router_id(spec_contract_router(buy)),
            buy_pool_fee,
            min_wmon_out,
        ),
{
    let s = ContractRouter::from(sell).id();
    let b = ContractRouter::from(buy).id();
    let params = abi_encode_execute_arb_params(s, sell_data, b, buy_pool_fee, min_wmon_out);
    joined(selector("executeArbUnchecked(uint8,bytes,uint8,uint24,uint256)"), &params)
}

} // verus!
