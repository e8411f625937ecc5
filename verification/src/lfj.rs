//! Reading LFJ (Liquidity Book) pair answers: the active bin id and the
//! bin step, ABI-decoded from the bytes the pair returned.

use vstd::prelude::*;

verus! {

/// `alloy`'s ABI decoding error.
#[verifier::external_type_specification]
#[verifier::external_body]
pub struct ExAbiError(alloy::sol_types::Error);

/// Why an answer could not be read.
#[derive(Debug, Clone, Copy, PartialEq, Eq, Structural)]
pub enum DecodeError {
    /// The bytes are not an ABI-encoded value of the expected type.
    Abi,
}

/// The number of the low `n` bytes of a 32-byte ABI word, big-endian.
pub open spec fn spec_word_low_bytes(data: Seq<u8>, n: int) -> int
    decreases n,
{
    if n <= 0 {
        0
    } else {
        spec_word_low_bytes(data, n - 1) + data[32 - n] * pow256(n - 1)
    }
}

/// 256 to the power `k`.
pub open spec fn pow256(k: int) -> int
    decreases k,
{
    if k <= 0 {
        1
    } else {
        256 * pow256(k - 1)
    }
}

/// `alloy`'s decoding of a `(uint24)` return tuple, without validation: it
/// fails exactly when fewer than 32 bytes are given, and otherwise reads the
/// last three bytes of the first word, big-endian (the higher bytes of the
/// word are not looked at).
#[verifier::external_body]
fn abi_decode_uint24(data: &[u8]) -> (r: Result<u32, alloy::sol_types::Error>)
    ensures
        r is Ok <==> data@.len() >= 32,
        r matches Ok(v) ==> v == spec_word_low_bytes(data@, 3),
{
    match <(alloy::sol_types::sol_data::Uint<24>,) as alloy::sol_types::SolType>::abi_decode_sequence(data) {
        Ok((v,)) => Ok(v.to::<u32>()),
        Err(e) => Err(e),
    }
}

/// `alloy`'s decoding of a `(uint16)` return tuple, without validation: it
/// fails exactly when fewer than 32 bytes are given, and otherwise reads the
/// last two bytes of the first word, big-endian.
#[verifier::external_body]
fn abi_decode_uint16(data: &[u8]) -> (r: Result<u16, alloy::sol_types::Error>)
    ensures
        r is Ok <==> data@.len() >= 32,
        r matches Ok(v) ==> v == spec_word_low_bytes(data@, 2),
{
    match <(alloy::sol_types::sol_data::Uint<16>,) as alloy::sol_types::SolType>::abi_decode_sequence(data) {
        Ok((v,)) => Ok(v),
        Err(e) => Err(e),
    }
}

/// The active bin id in an answer to `getActiveId()`, if it has one.
pub open spec fn spec_active_id(data: Seq<u8>) -> Option<u32> {
    if data.len() >= 32 {
        Some(spec_word_low_bytes(data, 3) as u32)
    } else {
        None
    }
}

/// The bin step in an answer to `getBinStep()`, if it has one.
pub open spec fn spec_bin_step(data: Seq<u8>) -> Option<u16> {
    if data.len() >= 32 {
        Some(spec_word_low_bytes(data, 2) as u16)
    } else {
        None
    }
}

/// Decode the answer to `getActiveId()` (a `uint24`).
pub fn decode_active_id_response(data: &[u8]) -> (r: Result<u32, DecodeError>)
    ensures
        match spec_active_id(data@) {
            Some(v) => r == Ok::<u32, DecodeError>(v),
            None => r == Err::<u32, DecodeError>(DecodeError::Abi),
        },
{
    match abi_decode_uint24(data) {
        Ok(v) => Ok(v),
        Err(_) => Err(DecodeError::Abi),
    }
}

/// Decode the answer to `getBinStep()` (a `uint16`).
pub fn decode_bin_step_response(data: &[u8]) -> (r: Result<u16, DecodeError>)
    ensures
        match spec_bin_step(data@) {
            Some(v) => r == Ok::<u16, DecodeError>(v),
            None => r == Err::<u16, DecodeError>(DecodeError::Abi),
        },
{
    match abi_decode_uint16(data) {
        Ok(v) => Ok(v),
        Err(_) => Err(DecodeError::Abi),
    }
}

/// The fee of an LFJ pair in hundredths of a bip: the base fee in bps
/// (base factor × bin step / 10000) times 100, or the bin step times 100
/// when the static fee parameters could not be read.
pub open spec fn spec_lfj_pool_fee(base_factor: Option<u16>, bin_step: u32) -> int {
    match base_factor {
        Some(b) => ((b * bin_step) / 10_000) * 100,
        None => bin_step * 100,
    }
}

/// The pair's fee can be computed in 32 bits.
pub open spec fn spec_lfj_pool_fee_ok(base_factor: Option<u16>, bin_step: u32) -> bool {
    match base_factor {
        Some(b) => b * bin_step <= u32::MAX && ((b * bin_step) / 10_000) * 100 <= u32::MAX,
        None => bin_step * 100 <= u32::MAX,
    }
}

/// The fee of an LFJ pair in hundredths of a bip, as V3 fees are given.
pub fn lfj_pool_fee(base_factor: Option<u16>, bin_step: u32) -> (r: u32)
    requires
        spec_lfj_pool_fee_ok(base_factor, bin_step),
    ensures
        r == spec_lfj_pool_fee(base_factor, bin_step),
{
    match base_factor {
        Some(b) => {
            let base_fee_bps = (b as u32 * bin_step) / 10_000;
            base_fee_bps * 100
        },
        None => bin_step * 100,
    }
}

} // verus!
