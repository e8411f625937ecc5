//! The bytes of an LFJ router swap through one pair: the call
//! `swapExactTokensForTokens(uint256 amountIn, uint256 amountOutMin,
//! (uint256[] pairBinSteps, uint8[] versions, address[] tokenPath) path,
//! address to, uint256 deadline)`, ABI-encoded. The pair's bin step travels
//! in the path, and the router finds no pair unless it is the pool's own.

use crate::address::{address_bytes, Address};
use crate::lfj::pow256;
use crate::routers::RouterCall;
use crate::uint::U256;
use crate::v4_pools::spec_address_word;
use alloy::sol_types::sol_data::{Array, Uint};
use alloy::primitives::{Address as AAddress, U256 as AU256};
use alloy::sol_types::{sol_data, SolType};
use vstd::prelude::*;

verus! {

/// The 32-byte ABI word of a number below 2^256, most significant byte
/// first.
pub open spec fn spec_be_word(v: int) -> Seq<u8> {
    Seq::new(32, |i: int| ((v / pow256(31 - i)) % 256) as u8)
}

/// The ABI words of some numbers, one after another.
pub open spec fn spec_words(vs: Seq<int>) -> Seq<u8>
    decreases vs.len(),
{
    if vs.len() == 0 {
        Seq::empty()
    } else {
        spec_words(vs.drop_last()) + spec_be_word(vs.last())
    }
}

/// The ABI words of some addresses, one after another.
pub open spec fn spec_address_words(ts: Seq<Seq<u8>>) -> Seq<u8>
    decreases ts.len(),
{
    if ts.len() == 0 {
        Seq::empty()
    } else {
        spec_address_words(ts.drop_last()) + spec_address_word(ts.last())
    }
}

/// The ABI encoding of the path `(uint256[] pairBinSteps, uint8[]
/// versions, address[] tokenPath)`: the offsets of its three arrays, then
/// each array as its length and its items.
pub open spec fn spec_lfj_path(steps: Seq<int>, versions: Seq<int>, tokens: Seq<Seq<u8>>) -> Seq<u8> {
    let second: int = 0x60 + 32 * (steps.len() as int + 1);
    let third: int = second + 32 * (versions.len() + 1);
    spec_be_word(0x60) + spec_be_word(second) + spec_be_word(third) + spec_be_word(steps.len() as int)
        + spec_words(steps) + spec_be_word(versions.len() as int) + spec_words(versions) + spec_be_word(
        tokens.len() as int,
    ) + spec_address_words(tokens)
}

/// The ABI encoding of the call's parameters: the head (the amounts, the
/// path's offset, the recipient, the deadline), then the path.
pub open spec fn spec_lfj_swap_params(
    amount_in: int,
    amount_out_min: int,
    steps: Seq<int>,
    versions: Seq<int>,
    tokens: Seq<Seq<u8>>,
    to: Seq<u8>,
    deadline: int,
) -> Seq<u8> {
    spec_be_word(amount_in) + spec_be_word(amount_out_min) + spec_be_word(0xa0) + spec_address_word(to)
        + spec_be_word(deadline) + spec_lfj_path(steps, versions, tokens)
}

/// `alloy`'s ABI encoding (`SolType::abi_encode_params`) of the parameters
/// of an LFJ swap: static values each in a word, the path after the head,
/// each array as its length and its items.
#[verifier::external_body]
fn abi_encode_lfj_swap_params(
    amount_in: U256,
    amount_out_min: U256,
    steps: &Vec<U256>,
    versions: &Vec<u8>,
    tokens: &Vec<[u8; 20]>,
    to: [u8; 20],
    deadline: U256,
) -> (r: Vec<u8>)
    ensures
        r@ == spec_lfj_swap_params(
            amount_in.value(),
            amount_out_min.value(),
            steps@.map_values(|x: U256| x.value()),
            versions@.map_values(|v: u8| v as int),
            tokens@.map_values(|t: [u8; 20]| t@),
            to@,
            deadline.value(),
        ),
{
    let steps: Vec<AU256> = steps.iter().map(|x| AU256::from_limbs(x.limbs)).collect();
    let tokens: Vec<AAddress> = tokens.iter().map(|t| AAddress::from(*t)).collect();
    <(Uint<256>, Uint<256>, (Array<Uint<256>>, Array<Uint<8>>, Array<sol_data::Address>), sol_data::Address, Uint<256>)
        as SolType>::abi_encode_params(&(
        AU256::from_limbs(amount_in.limbs),
        AU256::from_limbs(amount_out_min.limbs),
        (steps, versions.clone(), tokens),
        AAddress::from(to),
        AU256::from_limbs(deadline.limbs),
    ))
}

/// The selector of `swapExactTokensForTokens(uint256,uint256,
/// (uint256[],uint8[],address[]),address,uint256)`: the first four bytes
/// of the Keccak-256 of that signature.
pub open spec fn spec_lfj_swap_selector() -> Seq<u8> {
    seq![0x2au8, 0x44u8, 0x3fu8, 0xaeu8]
}

/// The calldata of an LFJ swap: the selector, then the parameters.
pub open spec fn spec_lfj_swap_calldata(
    amount_in: U256,
    amount_out_min: U256,
    steps: Seq<U256>,
    versions: Seq<u8>,
    tokens: Seq<Address>,
    to: Address,
    deadline: U256,
) -> Seq<u8> {
    spec_lfj_swap_selector() + spec_lfj_swap_params(
        amount_in.value(),
        amount_out_min.value(),
        steps.map_values(|x: U256| x.value()),
        versions.map_values(|v: u8| v as int),
        tokens.map_values(|t: Address| crate::address::spec_address_bytes(t)),
        crate::address::spec_address_bytes(to),
        deadline.value(),
    )
}

/// The bytes of each address, in order.
fn addresses_bytes(tokens: &Vec<Address>) -> (r: Vec<[u8; 20]>)
    ensures
        r@.map_values(|t: [u8; 20]| t@) == tokens@.map_values(|t: Address| crate::address::spec_address_bytes(t)),
{
    let mut r: Vec<[u8; 20]> = Vec::new();
    let mut i: usize = 0;
    while i < tokens.len()
        invariant
            i <= tokens@.len(),
            r@.len() == i,
            forall|j: int| 0 <= j < i ==> #[trigger] r@[j]@ == crate::address::spec_address_bytes(tokens@[j]),
        decreases tokens.len() - i,
    {
        r.push(address_bytes(tokens[i]));
        i = i + 1;
    }
    assert(r@.map_values(|t: [u8; 20]| t@) =~= tokens@.map_values(
        |t: Address| crate::address::spec_address_bytes(t),
    ));
    r
}

/// The calldata of an LFJ router call through its path; none for any other
/// call.
pub fn lfj_swap_calldata(call: &RouterCall) -> (r: Option<Vec<u8>>)
    ensures
        match call {
            RouterCall::LfjSwapExactTokensForTokens {
                amount_in,
                amount_out_min,
                pair_bin_steps,
                versions,
                token_path,
                to,
                deadline,
            } => r matches Some(b) && b@ == spec_lfj_swap_calldata(
                *amount_in,
                *amount_out_min,
                pair_bin_steps@,
                versions@,
                token_path@,
                *to,
                *deadline,
            ),
            _ => r is None,
        },
{
    match call {
        RouterCall::LfjSwapExactTokensForTokens {
            amount_in,
            amount_out_min,
            pair_bin_steps,
            versions,
            token_path,
            to,
            deadline,
        } => {
            let tokens = addresses_bytes(token_path);
            let params = abi_encode_lfj_swap_params(
                *amount_in,
                *amount_out_min,
                pair_bin_steps,
                versions,
                &tokens,
                address_bytes(*to),
                *deadline,
            );
            let mut out: Vec<u8> = Vec::new();
            out.push(0x2a);
            out.push(0x44);
            out.push(0x3f);
            out.push(0xae);
            let mut i: usize = 0;
            while i < params.len()
                invariant
                    i <= params@.len(),
                    out@ == spec_lfj_swap_selector() + params@.take(i as int),
                decreases params.len() - i,
            {
                out.push(params[i]);
                i = i + 1;
                assert(params@.take(i as int) =~= params@.take(i - 1).push(params@[i - 1]));
            }
            assert(params@.take(params@.len() as int) =~= params@);
            Some(out)
        },
        _ => None,
    }
}

/// The words of some numbers take 32 bytes each, the `k`-th holding the
/// `k`-th number.
proof fn lemma_words_layout(vs: Seq<int>)
    ensures
        spec_words(vs).len() == 32 * vs.len(),
        forall|k: int|
            0 <= k < vs.len() ==> #[trigger] spec_words(vs).subrange(32 * k, 32 * k + 32) == spec_be_word(vs[k]),
    decreases vs.len(),
{
    if vs.len() > 0 {
        let rest = vs.drop_last();
        lemma_words_layout(rest);
        let w = spec_words(vs);
        assert forall|k: int| 0 <= k < vs.len() implies #[trigger] w.subrange(32 * k, 32 * k + 32)
            == spec_be_word(vs[k]) by {
            if k < rest.len() {
                assert(w.subrange(32 * k, 32 * k + 32) =~= spec_words(rest).subrange(32 * k, 32 * k + 32));
            } else {
                assert(w.subrange(32 * k, 32 * k + 32) =~= spec_be_word(vs.last()));
            }
        }
    }
}

/// The words of some addresses take 32 bytes each.
proof fn lemma_address_words_len(ts: Seq<Seq<u8>>)
    requires
        forall|i: int| 0 <= i < ts.len() ==> (#[trigger] ts[i]).len() == 20,
    ensures
        spec_address_words(ts).len() == 32 * ts.len(),
    decreases ts.len(),
{
    if ts.len() > 0 {
        let rest = ts.drop_last();
        assert forall|i: int| 0 <= i < rest.len() implies (#[trigger] rest[i]).len() == 20 by {
            assert(rest[i] == ts[i]);
        }
        lemma_address_words_len(rest);
    }
}

/// The bin steps an LFJ swap's calldata carries are the ones it was built
/// with: after the selector, the five head words and the path's three
/// offsets and length, the `k`-th word is the `k`-th pair's bin step; the
/// versions follow their own length word, in order; and the calldata is
/// the selector and one word per value.
pub proof fn law_lfj_calldata_carries_bin_steps(
    amount_in: U256,
    amount_out_min: U256,
    steps: Seq<U256>,
    versions: Seq<u8>,
    tokens: Seq<Address>,
    to: Address,
    deadline: U256,
)
    ensures
        spec_lfj_swap_calldata(amount_in, amount_out_min, steps, versions, tokens, to, deadline).len() == 4
            + 32 * (11 + steps.len() + versions.len() + tokens.len()),
        forall|k: int|
            0 <= k < steps.len() ==> #[trigger] spec_lfj_swap_calldata(
                amount_in,
                amount_out_min,
                steps,
                versions,
                tokens,
                to,
                deadline,
            ).subrange(4 + 32 * (9 + k), 4 + 32 * (10 + k)) == spec_be_word(steps[k].value()),
        forall|k: int|
            0 <= k < versions.len() ==> #[trigger] spec_lfj_swap_calldata(
                amount_in,
                amount_out_min,
                steps,
                versions,
                tokens,
                to,
                deadline,
            ).subrange(4 + 32 * (10 + steps.len() + k), 4 + 32 * (11 + steps.len() + k)) == spec_be_word(
                versions[k] as int,
            ),
{
    let c = spec_lfj_swap_calldata(amount_in, amount_out_min, steps, versions, tokens, to, deadline);
    let sv = steps.map_values(|x: U256| x.value());
    let vv = versions.map_values(|v: u8| v as int);
    let tv = tokens.map_values(|t: Address| crate::address::spec_address_bytes(t));
    lemma_words_layout(sv);
    lemma_words_layout(vv);
    lemma_address_words_len(tv);
    let ns = steps.len() as int;
    let w = |v: int| spec_be_word(v);
    let head = spec_lfj_swap_selector() + w(amount_in.value()) + w(amount_out_min.value()) + w(0xa0)
        + spec_address_word(crate::address::spec_address_bytes(to)) + w(deadline.value()) + w(0x60) + w(
        0x60 + 32 * (ns + 1),
    ) + w(0x60 + 32 * (ns + 1) + 32 * (versions.len() + 1)) + w(ns);
    assert(head.len() == 292);
    let mid = head + spec_words(sv) + w(versions.len() as int);
    let tail = spec_words(vv) + w(tokens.len() as int) + spec_address_words(tv);
    assert(c =~= mid + tail);
    assert forall|k: int| 0 <= k < steps.len() implies #[trigger] c.subrange(4 + 32 * (9 + k), 4 + 32 * (10 + k))
        == spec_be_word(steps[k].value()) by {
        assert(c.subrange(4 + 32 * (9 + k), 4 + 32 * (10 + k)) =~= spec_words(sv).subrange(32 * k, 32 * k + 32));
    }
    assert forall|k: int| 0 <= k < versions.len() implies #[trigger] c.subrange(
        4 + 32 * (10 + steps.len() + k),
        4 + 32 * (11 + steps.len() + k),
    ) == spec_be_word(versions[k] as int) by {
        assert(c.subrange(4 + 32 * (10 + steps.len() + k), 4 + 32 * (11 + steps.len() + k)) =~= spec_words(
            vv,
        ).subrange(32 * k, 32 * k + 32));
    }
}

} // verus!
