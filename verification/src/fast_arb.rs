//! The decisions of a two-transaction arbitrage: after the first swap's
//! receipt, stop or send the second swap with the next nonce; once done,
//! the record of both legs. Monad charges the gas limit, not the gas used,
//! so a leg costs its gas limit times its effective gas price.
//!
//! Sending, waiting for receipts and the balance arithmetic (floating
//! point) are the caller's.

use crate::config::{gas_with_buffer, get_fallback_gas_limit, spec_fallback_gas_limit, RouterType, GAS_BUFFER_PERCENT};
use crate::text::push_str;
use crate::uint::{u256_add, u256_from_u128, u256_mul, U256};
use vstd::prelude::*;

verus! {

/// What a leg's receipt says.
#[derive(Debug, Clone, PartialEq, Eq)]
pub struct LegReceipt {
    /// The transaction's hash, as text.
    pub tx_hash: String,
    /// The transaction did not revert.
    pub success: bool,
    pub gas_used: u64,
    /// The gas limit the transaction was sent with.
    pub gas_limit: u64,
    pub effective_gas_price: u128,
}

/// The integer record of a fast arbitrage.
#[derive(Debug, Clone)]
pub struct FastArbResult {
    /// Swap 1's transaction hash (empty when it was not sent).
    pub swap1_tx_hash: String,
    pub swap1_gas_used: u64,
    /// The gas limit swap 1 was sent with (0 when unknown).
    pub swap1_gas_estimated: u64,
    pub swap1_success: bool,
    /// Swap 2's transaction hash (empty when it was not sent).
    pub swap2_tx_hash: String,
    pub swap2_gas_used: u64,
    /// The gas limit swap 2 was sent with (0 when it was not prepared).
    pub swap2_gas_estimated: u64,
    pub swap2_success: bool,
    /// What the gas cost: gas limit times effective gas price, per leg.
    pub total_gas_cost_wei: U256,
    pub total_gas_used: u64,
    pub total_gas_estimated: u64,
    pub success: bool,
    pub error: Option<String>,
}

/// What to do once swap 1's receipt is in.
#[derive(Debug, Clone)]
pub enum FastArbStep {
    /// Stop with this record.
    Finish { result: FastArbResult },
    /// Send swap 2 with this nonce.
    SendSwap2 { nonce: u64 },
}

/// What a leg costs: its gas limit times its effective gas price.
pub open spec fn spec_leg_cost(l: LegReceipt) -> int {
    l.gas_limit * l.effective_gas_price
}

/// `f(leg)` for a leg that ran, 0 for one that did not.
pub open spec fn spec_or_zero(leg: Option<LegReceipt>, f: spec_fn(LegReceipt) -> int) -> int {
    match leg {
        Some(l) => f(l),
        None => 0,
    }
}

/// The totals of two legs fit their types.
pub open spec fn spec_totals_ok(leg1: LegReceipt, leg2: Option<LegReceipt>) -> bool {
    &&& leg1.gas_used + spec_or_zero(leg2, |l: LegReceipt| l.gas_used as int) <= u64::MAX
    &&& leg1.gas_limit + spec_or_zero(leg2, |l: LegReceipt| l.gas_limit as int) <= u64::MAX
}

/// The error of a run: none when both legs succeeded; "One or both swaps
/// reverted" when swap 2 ran; "Swap 1 reverted" when swap 1 reverted and
/// swap 2 never ran; "Swap 2 not sent" when swap 1 succeeded but swap 2
/// never ran.
pub open spec fn spec_totals_error(leg1: LegReceipt, leg2: Option<LegReceipt>) -> Option<Seq<char>> {
    match leg2 {
        Some(l2) => if leg1.success && l2.success {
            None
        } else {
            Some("One or both swaps reverted"@)
        },
        None => if leg1.success {
            Some("Swap 2 not sent"@)
        } else {
            Some("Swap 1 reverted"@)
        },
    }
}

/// `r` is the record of a run whose legs gave these receipts (swap 2's
/// none when it never ran).
pub open spec fn spec_totals(r: FastArbResult, leg1: LegReceipt, leg2: Option<LegReceipt>) -> bool {
    &&& r.swap1_tx_hash@ == leg1.tx_hash@
    &&& r.swap2_tx_hash@ == match leg2 {
        Some(l) => l.tx_hash@,
        None => Seq::<char>::empty(),
    }
    &&& r.swap1_gas_used == leg1.gas_used
    &&& r.swap1_gas_estimated == leg1.gas_limit
    &&& r.swap1_success == leg1.success
    &&& r.swap2_gas_used == spec_or_zero(leg2, |l: LegReceipt| l.gas_used as int)
    &&& r.swap2_gas_estimated == spec_or_zero(leg2, |l: LegReceipt| l.gas_limit as int)
    &&& r.swap2_success == (leg2 matches Some(l) && l.success)
    &&& r.total_gas_cost_wei.value() == spec_leg_cost(leg1) + spec_or_zero(leg2, |l: LegReceipt| spec_leg_cost(l))
    &&& r.total_gas_used == leg1.gas_used + spec_or_zero(leg2, |l: LegReceipt| l.gas_used as int)
    &&& r.total_gas_estimated == leg1.gas_limit + spec_or_zero(leg2, |l: LegReceipt| l.gas_limit as int)
    &&& r.success == (leg1.success && (leg2 matches Some(l) && l.success))
    &&& match spec_totals_error(leg1, leg2) {
        Some(e) => r.error matches Some(s) && s@ == e,
        None => r.error is None,
    }
}

/// A leg's cost in wei, exactly (it stays below 2^192).
fn leg_cost(l: &LegReceipt) -> (r: U256)
    ensures
        r.value() == spec_leg_cost(*l),
        r.value() < 0x1_0000_0000_0000_0000_0000_0000_0000_0000_0000_0000_0000_0000int,
{
    let a = u256_from_u128(l.gas_limit as u128);
    let b = u256_from_u128(l.effective_gas_price);
    let p = u256_mul(a, b);
    let ghost x = l.gas_limit as int;
    let ghost y = l.effective_gas_price as int;
    assert(0 <= x * y < 0x1_0000_0000_0000_0000_0000_0000_0000_0000_0000_0000_0000_0000int) by (nonlinear_arith)
        requires
            0 <= x <= 0xffff_ffff_ffff_ffff,
            0 <= y <= 0xffff_ffff_ffff_ffff_ffff_ffff_ffff_ffff,
    ;
    assert(crate::uint::u256_modulus() > 0x1_0000_0000_0000_0000_0000_0000_0000_0000_0000_0000_0000_0000int);
    assert((x * y) % crate::uint::u256_modulus() == x * y) by (nonlinear_arith)
        requires
            0 <= x * y < crate::uint::u256_modulus(),
    ;
    p
}

/// The record of a run from its legs' receipts (swap 2's none when it never
/// ran): the gas of both legs added up, the cost being each gas limit times
/// its effective price, and success only when both legs succeeded.
pub fn fast_arb_totals(leg1: LegReceipt, leg2: Option<LegReceipt>) -> (r: FastArbResult)
    requires
        spec_totals_ok(leg1, leg2),
    ensures
        spec_totals(r, leg1, leg2),
{
    let c1 = leg_cost(&leg1);
    match leg2 {
        Some(l2) => {
            let c2 = leg_cost(&l2);
            let total = u256_add(c1, c2);
            assert((c1.value() + c2.value()) % crate::uint::u256_modulus() == c1.value() + c2.value()) by (nonlinear_arith)
                requires
                    0 <= c1.value() + c2.value() < crate::uint::u256_modulus(),
            ;
            let success = leg1.success && l2.success;
            let error = if success {
                None
            } else {
                let mut s = String::new();
                push_str(&mut s, "One or both swaps reverted");
                Some(s)
            };
            FastArbResult {
                swap1_tx_hash: leg1.tx_hash,
                swap1_gas_used: leg1.gas_used,
                swap1_gas_estimated: leg1.gas_limit,
                swap1_success: leg1.success,
                swap2_tx_hash: l2.tx_hash,
                swap2_gas_used: l2.gas_used,
                swap2_gas_estimated: l2.gas_limit,
                swap2_success: l2.success,
                total_gas_cost_wei: total,
                total_gas_used: leg1.gas_used + l2.gas_used,
                total_gas_estimated: leg1.gas_limit + l2.gas_limit,
                success,
                error,
            }
        },
        None => {
            let mut s = String::new();
            if leg1.success {
                push_str(&mut s, "Swap 2 not sent");
            } else {
                push_str(&mut s, "Swap 1 reverted");
            }
            FastArbResult {
                swap1_tx_hash: leg1.tx_hash,
                swap1_gas_used: leg1.gas_used,
                swap1_gas_estimated: leg1.gas_limit,
                swap1_success: leg1.success,
                swap2_tx_hash: String::new(),
                swap2_gas_used: 0,
                swap2_gas_estimated: 0,
                swap2_success: false,
                total_gas_cost_wei: c1,
                total_gas_used: leg1.gas_used,
                total_gas_estimated: leg1.gas_limit,
                success: false,
                error: Some(s),
            }
        },
    }
}

/// After swap 1's receipt: when swap 1 reverted, stop with its record and
/// the "Swap 1 reverted" error; otherwise send swap 2 with the nonce after
/// swap 1's (the counter wraps, as an atomic add does).
pub fn after_swap1(swap1_nonce: u64, receipt: LegReceipt) -> (r: FastArbStep)
    ensures
        receipt.success ==> r == (FastArbStep::SendSwap2 { nonce: swap1_nonce.wrapping_add(1) }),
        !receipt.success ==> (r matches FastArbStep::Finish { result } && spec_totals(result, receipt, None)),
        !receipt.success ==> (r matches FastArbStep::Finish { result } && result.error matches Some(e) && e@
            == "Swap 1 reverted"@),
{
    if receipt.success {
        FastArbStep::SendSwap2 { nonce: swap1_nonce.wrapping_add(1) }
    } else {
        FastArbStep::Finish { result: fast_arb_totals(receipt, None) }
    }
}

/// The error of a leg that was never confirmed: "Swap `n` send failed:
/// `detail`" when sending failed, "Swap `n` send timeout" when it timed out.
pub open spec fn spec_send_error(leg: u8, detail: Option<Seq<char>>) -> Seq<char> {
    let name = if leg == 1 { "Swap 1"@ } else { "Swap 2"@ };
    match detail {
        Some(d) => name + " send failed: "@ + d,
        None => name + " send timeout"@,
    }
}

/// The error of a leg that was never confirmed (`leg` is 1 or 2).
pub fn send_error(leg: u8, detail: Option<String>) -> (r: String)
    ensures
        r@ == spec_send_error(leg, match detail {
            Some(d) => Some(d@),
            None => None,
        }),
{
    let mut s = String::new();
    if leg == 1 {
        push_str(&mut s, "Swap 1");
    } else {
        push_str(&mut s, "Swap 2");
    }
    match detail {
        Some(d) => {
            push_str(&mut s, " send failed: ");
            push_str(&mut s, d.as_str());
        },
        None => {
            push_str(&mut s, " send timeout");
        },
    }
    s
}

/// The record when swap 1 could not be sent: nothing ran, swap 1's gas
/// limit is recorded, the error given.
pub fn swap1_unsent(swap1_gas_limit: u64, error: String) -> (r: FastArbResult)
    ensures
        r.swap1_tx_hash@ == Seq::<char>::empty() && r.swap2_tx_hash@ == Seq::<char>::empty(),
        r.swap1_gas_used == 0 && r.swap1_gas_estimated == swap1_gas_limit && !r.swap1_success,
        r.swap2_gas_used == 0 && r.swap2_gas_estimated == 0 && !r.swap2_success,
        r.total_gas_cost_wei.value() == 0,
        r.total_gas_used == 0,
        r.total_gas_estimated == swap1_gas_limit,
        !r.success,
        r.error matches Some(e) && e@ == error@,
{
    FastArbResult {
        swap1_tx_hash: String::new(),
        swap1_gas_used: 0,
        swap1_gas_estimated: swap1_gas_limit,
        swap1_success: false,
        swap2_tx_hash: String::new(),
        swap2_gas_used: 0,
        swap2_gas_estimated: 0,
        swap2_success: false,
        total_gas_cost_wei: U256::zero(),
        total_gas_used: 0,
        total_gas_estimated: swap1_gas_limit,
        success: false,
        error: Some(error),
    }
}

/// The record when swap 1 went through but swap 2 could not be sent: swap
/// 1's receipt alone is paid for, swap 2's prepared gas limit is recorded,
/// the error given.
pub fn swap2_unsent(leg1: LegReceipt, swap2_gas_limit: u64, error: String) -> (r: FastArbResult)
    ensures
        r.swap1_tx_hash@ == leg1.tx_hash@ && r.swap2_tx_hash@ == Seq::<char>::empty(),
        r.swap1_gas_used == leg1.gas_used && r.swap1_gas_estimated == leg1.gas_limit,
        r.swap1_success == leg1.success,
        r.swap2_gas_used == 0 && r.swap2_gas_estimated == swap2_gas_limit && !r.swap2_success,
        r.total_gas_cost_wei.value() == spec_leg_cost(leg1),
        r.total_gas_used == leg1.gas_used,
        r.total_gas_estimated == leg1.gas_limit,
        !r.success,
        r.error matches Some(e) && e@ == error@,
{
    let c1 = leg_cost(&leg1);
    FastArbResult {
        swap1_tx_hash: leg1.tx_hash,
        swap1_gas_used: leg1.gas_used,
        swap1_gas_estimated: leg1.gas_limit,
        swap1_success: leg1.success,
        swap2_tx_hash: String::new(),
        swap2_gas_used: 0,
        swap2_gas_estimated: swap2_gas_limit,
        swap2_success: false,
        total_gas_cost_wei: c1,
        total_gas_used: leg1.gas_used,
        total_gas_estimated: leg1.gas_limit,
        success: false,
        error: Some(error),
    }
}

/// The gas limit a leg is sent with: the node's gas estimate plus a 10%
/// buffer, or the router's fallback limit when the estimate failed.
pub fn leg_gas_limit(estimate: Option<u64>, router_type: RouterType) -> (r: u64)
    requires
        estimate matches Some(e) ==> e * 110 <= u64::MAX,
    ensures
        match estimate {
            Some(e) => r == e * 110 / 100,
            None => r == spec_fallback_gas_limit(router_type),
        },
{
    match estimate {
        Some(e) => gas_with_buffer(e, GAS_BUFFER_PERCENT),
        None => get_fallback_gas_limit(router_type),
    }
}

} // verus!
