//! Reading contract answers: the sqrt price in a V3 pool's `slot0()`
//! answer, the reserves in a V2-style pool's `getReserves()` answer and the
//! two balances in the arbitrage contract's `getBalances()` answer,
//! ABI-decoded from the bytes the contract returned; and the answers
//! Multicall3's `aggregate3` gives for a batch.

use crate::lfj::{pow256, DecodeError};
use crate::multicall::CallResult;
use alloy::sol_types::sol_data::{Array, Bool, Bytes as SolBytes};
use alloy::sol_types::{sol_data, SolType};
use crate::uint::U256;
use vstd::prelude::*;

verus! {

/// The number of the low `n` bytes of ABI word `w` (bytes `32 w` to
/// `32 w + 31`), big-endian.
pub open spec fn spec_word_bytes_at(data: Seq<u8>, w: int, n: int) -> int
    decreases n,
{
    if n <= 0 {
        0
    } else {
        spec_word_bytes_at(data, w, n - 1) + data[32 * (w + 1) - n] * pow256(n - 1)
    }
}

/// `alloy`'s decoding of the `slot0()` return tuple `(uint160 sqrtPriceX96,
/// int24 tick, uint16, uint16, uint16, uint8 feeProtocol, bool unlocked)`,
/// without validation, as `abi_decode_returns` does it: it fails exactly
/// when fewer than seven words are given, and the sqrt price is the low 20
/// bytes of the first word, big-endian.
#[verifier::external_body]
fn abi_decode_slot0(data: &[u8]) -> (r: Result<U256, alloy::sol_types::Error>)
    ensures
        r is Ok <==> data@.len() >= 224,
        r matches Ok(v) ==> v.value() == spec_word_bytes_at(data@, 0, 20),
{
    match <(
        sol_data::Uint<160>,
        sol_data::Int<24>,
        sol_data::Uint<16>,
        sol_data::Uint<16>,
        sol_data::Uint<16>,
        sol_data::Uint<8>,
        sol_data::Bool,
    ) as SolType>::abi_decode_sequence(data) {
        Ok(v) => Ok(U256 { limbs: alloy::primitives::U256::from(v.0).into_limbs() }),
        Err(e) => Err(e),
    }
}

/// The sqrt price in an answer to `slot0()`, if it has one.
pub open spec fn spec_slot0_sqrt_price(data: Seq<u8>) -> Option<int> {
    if data.len() >= 224 {
        Some(spec_word_bytes_at(data, 0, 20))
    } else {
        None
    }
}

/// Decode the sqrt price (`sqrtPriceX96`) from an answer to `slot0()`.
pub fn decode_slot0_response(data: &[u8]) -> (r: Result<U256, DecodeError>)
    ensures
        match spec_slot0_sqrt_price(data@) {
            Some(v) => r matches Ok(p) && p.value() == v,
            None => r == Err::<U256, DecodeError>(DecodeError::Abi),
        },
{
    match abi_decode_slot0(data) {
        Ok(v) => Ok(v),
        Err(_) => Err(DecodeError::Abi),
    }
}

/// `alloy`'s decoding of the `getReserves()` return tuple `(uint112
/// reserve0, uint112 reserve1, uint32 blockTimestampLast)`, without
/// validation, as `abi_decode_returns` does it: it fails exactly when fewer
/// than three words are given, and each reserve is the low 14 bytes of its
/// word, big-endian.
#[verifier::external_body]
fn abi_decode_reserves(data: &[u8]) -> (r: Result<(u128, u128), alloy::sol_types::Error>)
    ensures
        r is Ok <==> data@.len() >= 96,
        r matches Ok(v) ==> v.0 == spec_word_bytes_at(data@, 0, 14) && v.1 == spec_word_bytes_at(data@, 1, 14),
{
    match <(sol_data::Uint<112>, sol_data::Uint<112>, sol_data::Uint<32>) as SolType>::abi_decode_sequence(data) {
        Ok(v) => Ok((v.0.to::<u128>(), v.1.to::<u128>())),
        Err(e) => Err(e),
    }
}

/// The two reserves in an answer to `getReserves()`, if it has them.
pub open spec fn spec_reserves(data: Seq<u8>) -> Option<(int, int)> {
    if data.len() >= 96 {
        Some((spec_word_bytes_at(data, 0, 14), spec_word_bytes_at(data, 1, 14)))
    } else {
        None
    }
}

/// Decode the two reserves from an answer to `getReserves()` (the price is
/// their ratio, which the caller computes).
pub fn decode_reserves_response(data: &[u8]) -> (r: Result<(u128, u128), DecodeError>)
    ensures
        match spec_reserves(data@) {
            Some(v) => r matches Ok(p) && p.0 == v.0 && p.1 == v.1,
            None => r == Err::<(u128, u128), DecodeError>(DecodeError::Abi),
        },
{
    match abi_decode_reserves(data) {
        Ok(v) => Ok(v),
        Err(_) => Err(DecodeError::Abi),
    }
}

/// `alloy`'s decoding of the `getBalances()` return tuple `(uint256 wmon,
/// uint256 usdc)`, without validation, as `abi_decode_returns` does it: it
/// fails exactly when fewer than two words are given, and each balance is
/// its whole word, big-endian.
#[verifier::external_body]
fn abi_decode_balances(data: &[u8]) -> (r: Result<(U256, U256), alloy::sol_types::Error>)
    ensures
        r is Ok <==> data@.len() >= 64,
        r matches Ok(v) ==> v.0.value() == spec_word_bytes_at(data@, 0, 32) && v.1.value()
            == spec_word_bytes_at(data@, 1, 32),
{
    match <(sol_data::Uint<256>, sol_data::Uint<256>) as SolType>::abi_decode_sequence(data) {
        Ok(v) => Ok((U256 { limbs: v.0.into_limbs() }, U256 { limbs: v.1.into_limbs() })),
        Err(e) => Err(e),
    }
}

/// The (WMON, USDC) balances in an answer to `getBalances()`, if it has
/// them.
pub open spec fn spec_contract_balances(data: Seq<u8>) -> Option<(int, int)> {
    if data.len() >= 64 {
        Some((spec_word_bytes_at(data, 0, 32), spec_word_bytes_at(data, 1, 32)))
    } else {
        None
    }
}

/// Decode the arbitrage contract's (WMON, USDC) balances, in base units,
/// from an answer to `getBalances()`.
pub fn decode_contract_balances(data: &[u8]) -> (r: Result<(U256, U256), DecodeError>)
    ensures
        match spec_contract_balances(data@) {
            Some(v) => r matches Ok(p) && p.0.value() == v.0 && p.1.value() == v.1,
            None => r == Err::<(U256, U256), DecodeError>(DecodeError::Abi),
        },
{
    match abi_decode_balances(data) {
        Ok(v) => Ok(v),
        Err(_) => Err(DecodeError::Abi),
    }
}

/// `alloy`'s decoding of `aggregate3`'s return value, an array of `(bool
/// success, bytes returnData)`: the answer of each call, or none when the
/// bytes do not decode.
pub uninterp spec fn spec_aggregate3_answers(data: Seq<u8>) -> Option<Seq<(bool, Seq<u8>)>>;

/// `alloy`'s decoding of `aggregate3`'s return tuple
/// `((bool,bytes)[])`, as `abi_decode_returns` does it. Whether it
/// succeeds and what it gives depend on the bytes alone; the layout is not
/// stated.
#[verifier::external_body]
fn abi_decode_aggregate3(data: &[u8]) -> (r: Result<Vec<(bool, Vec<u8>)>, alloy::sol_types::Error>)
    ensures
        match spec_aggregate3_answers(data@) {
            Some(a) => r matches Ok(v) && v@.map_values(|x: (bool, Vec<u8>)| (x.0, x.1@)) == a,
            None => r is Err,
        },
{
    match <(Array<(Bool, SolBytes)>,) as SolType>::abi_decode_sequence(data) {
        Ok(v) => Ok(v.0.into_iter().map(|(ok, bytes)| (ok, bytes.to_vec())).collect()),
        Err(e) => Err(e),
    }
}

/// Decode the answers of a Multicall3 round trip: one per call, in order,
/// each saying whether the call succeeded and what it returned.
pub fn decode_aggregate3_answers(data: &[u8]) -> (r: Result<Vec<CallResult>, DecodeError>)
    ensures
        match spec_aggregate3_answers(data@) {
            Some(a) => r matches Ok(v) && v@.len() == a.len() && forall|i: int|
                0 <= i < a.len() ==> (#[trigger] v@[i]).success == a[i].0 && v@[i].return_data@ == a[i].1,
            None => r == Err::<Vec<CallResult>, DecodeError>(DecodeError::Abi),
        },
{
    match abi_decode_aggregate3(data) {
        Ok(answers) => {
            let mut out: Vec<CallResult> = Vec::new();
            let mut answers = answers;
            let ghost all = answers@;
            let mut i: usize = 0;
            while i < answers.len()
                invariant
                    i <= answers@.len(),
                    answers@.len() == all.len(),
                    out@.len() == i,
                    forall|j: int|
                        0 <= j < i ==> (#[trigger] out@[j]).success == all[j].0 && out@[j].return_data@
                            == all[j].1@,
                    forall|j: int| i <= j < answers@.len() ==> #[trigger] answers@[j] == all[j],
                decreases answers.len() - i,
            {
                let mut taken: Vec<u8> = Vec::new();
                let ok = answers[i].0;
                std::mem::swap(&mut taken, &mut answers[i].1);
                out.push(CallResult { success: ok, return_data: taken });
                i = i + 1;
            }
            Ok(out)
        },
        Err(_) => Err(DecodeError::Abi),
    }
}

/// `alloy`'s decoding of a single `uint256` answer (such as
/// `balanceOf`'s), without validation: it fails exactly when no whole word
/// is given, and the value is the first word, big-endian.
#[verifier::external_body]
fn abi_decode_uint256(data: &[u8]) -> (r: Result<U256, alloy::sol_types::Error>)
    ensures
        r is Ok <==> data@.len() >= 32,
        r matches Ok(v) ==> v.value() == spec_word_bytes_at(data@, 0, 32),
{
    match <(sol_data::Uint<256>,) as SolType>::abi_decode_sequence(data) {
        Ok(v) => Ok(U256 { limbs: v.0.into_limbs() }),
        Err(e) => Err(e),
    }
}

/// Decode a balance from an answer to `balanceOf(address)`.
pub fn decode_balance_answer(data: &[u8]) -> (r: Result<U256, DecodeError>)
    ensures
        data@.len() >= 32 ==> (r matches Ok(v) && v.value() == spec_word_bytes_at(data@, 0, 32)),
        data@.len() < 32 ==> r == Err::<U256, DecodeError>(DecodeError::Abi),
{
    match abi_decode_uint256(data) {
        Ok(v) => Ok(v),
        Err(_) => Err(DecodeError::Abi),
    }
}

} // verus!
