//! The integer side of a single swap: which decimals each side has,
//! whether an approval is needed, the gas limit, what the swap gave, and
//! its record.

use crate::address::Address;
use crate::config::SwapDirection;
use crate::text::push_str;
use crate::uint::{lemma_value_bounds, u256_lt, u256_mul, u256_modulus, u256_saturating_sub, U256};
use vstd::prelude::*;

verus! {

/// (decimals of the input token, decimals of the output token): WMON has
/// 18, USDC 6.
pub fn direction_decimals(direction: SwapDirection) -> (r: (u8, u8))
    ensures
        direction == SwapDirection::Sell ==> r == (18u8, 6u8),
        direction == SwapDirection::Buy ==> r == (6u8, 18u8),
{
    match direction {
        SwapDirection::Sell => (18, 6),
        SwapDirection::Buy => (6, 18),
    }
}

/// The router must be approved when its allowance is below the amount.
pub fn approval_needed(current_allowance: U256, amount: U256) -> (r: bool)
    ensures
        r == (current_allowance.value() < amount.value()),
{
    u256_lt(current_allowance, amount)
}

/// The gas limit of a swap: the estimate plus 10%.
pub fn swap_gas_limit(gas_estimate: u64) -> (r: u64)
    requires
        gas_estimate + gas_estimate / 10 <= u64::MAX,
    ensures
        r == gas_estimate + gas_estimate / 10,
{
    gas_estimate + gas_estimate / 10
}

/// Gas assumed when estimation fails.
pub const DEFAULT_SWAP_GAS: u64 = 250_000;

/// Gas limit of an approval, a token transfer or a withdrawal from the
/// arbitrage contract.
pub const APPROVAL_GAS_LIMIT: u64 = 100_000;

/// Gas limit of wrapping or unwrapping MON.
pub const WRAP_GAS_LIMIT: u64 = 60_000;

/// What a swap delivered: the output token balance after minus before
/// (zero if it went down).
pub fn received_amount(balance_before: U256, balance_after: U256) -> (r: U256)
    ensures
        r.value() == if balance_after.value() >= balance_before.value() {
            balance_after.value() - balance_before.value()
        } else {
            0
        },
{
    u256_saturating_sub(balance_after, balance_before)
}

/// The cost of a swap in wei: gas used times its effective price.
pub fn swap_gas_cost(gas_used: u64, gas_price: u128) -> (r: U256)
    ensures
        r.value() == gas_used * gas_price,
{
    let r = u256_mul(U256::from_u64(gas_used), U256::from_u128(gas_price));
    proof {
        assert(0 <= gas_used * gas_price <= u64::MAX * u128::MAX) by (nonlinear_arith);
        assert(u64::MAX * u128::MAX < u256_modulus()) by {
            lemma_value_bounds(r);
        }
        vstd::arithmetic::div_mod::lemma_small_mod((gas_used * gas_price) as nat, u256_modulus() as nat);
    }
    r
}

/// The record of a swap, in integers: which router and direction, the
/// tokens, what went in and came out, the gas, the transaction and whether
/// it went through. The human-readable amounts and prices (floating point)
/// are the caller's.
#[derive(Debug, Clone)]
pub struct SwapResult {
    pub dex_name: String,
    pub direction: SwapDirection,
    pub token_in: Address,
    pub token_out: Address,
    pub amount_in: U256,
    pub amount_out: U256,
    pub gas_used: u64,
    pub gas_price: u128,
    pub gas_cost_wei: U256,
    /// Empty when the transaction was not sent.
    pub tx_hash: String,
    pub success: bool,
    pub error: Option<String>,
}

/// The record of a swap whose transaction was mined: the output is the
/// rise of the output token's balance, the cost is gas used times its
/// price, and a reverted transaction carries the error "Transaction
/// reverted".
pub fn swap_confirmed(
    dex_name: String,
    direction: SwapDirection,
    token_in: Address,
    token_out: Address,
    amount_in: U256,
    balance_before: U256,
    balance_after: U256,
    gas_used: u64,
    gas_price: u128,
    tx_hash: String,
    success: bool,
) -> (r: SwapResult)
    ensures
        r.dex_name@ == dex_name@ && r.direction == direction,
        r.token_in == token_in && r.token_out == token_out && r.amount_in == amount_in,
        r.amount_out.value() == if balance_after.value() >= balance_before.value() {
            balance_after.value() - balance_before.value()
        } else {
            0
        },
        r.gas_used == gas_used && r.gas_price == gas_price,
        r.gas_cost_wei.value() == gas_used * gas_price,
        r.tx_hash@ == tx_hash@,
        r.success == success,
        success ==> r.error is None,
        !success ==> (r.error matches Some(e) && e@ == "Transaction reverted"@),
{
    let error = if success {
        None
    } else {
        let mut e = String::new();
        push_str(&mut e, "Transaction reverted");
        Some(e)
    };
    SwapResult {
        dex_name,
        direction,
        token_in,
        token_out,
        amount_in,
        amount_out: received_amount(balance_before, balance_after),
        gas_used,
        gas_price,
        gas_cost_wei: swap_gas_cost(gas_used, gas_price),
        tx_hash,
        success,
        error,
    }
}

/// The record of a swap whose transaction could not be sent: nothing came
/// out, no gas was paid, the error given.
pub fn swap_send_failed(
    dex_name: String,
    direction: SwapDirection,
    token_in: Address,
    token_out: Address,
    amount_in: U256,
    error: String,
) -> (r: SwapResult)
    ensures
        r.dex_name@ == dex_name@ && r.direction == direction,
        r.token_in == token_in && r.token_out == token_out && r.amount_in == amount_in,
        r.amount_out.value() == 0,
        r.gas_used == 0 && r.gas_price == 0 && r.gas_cost_wei.value() == 0,
        r.tx_hash@ == Seq::<char>::empty(),
        !r.success,
        r.error matches Some(e) && e@ == error@,
{
    SwapResult {
        dex_name,
        direction,
        token_in,
        token_out,
        amount_in,
        amount_out: U256::zero(),
        gas_used: 0,
        gas_price: 0,
        gas_cost_wei: U256::zero(),
        tx_hash: String::new(),
        success: false,
        error: Some(error),
    }
}

} // verus!
