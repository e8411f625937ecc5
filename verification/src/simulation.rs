//! Judging an arbitrage cycle once its swaps have been quoted: swap
//! directions, sanity checks on the quotes, the profit breakdown and the
//! confidence in the result.

use crate::address::Address;
use crate::dex::{Dex, Pool};
use crate::graph::address_lt;
use crate::graph::address_less;
use crate::profit::{spec_breakdown_of, spec_calculate_ok, ProfitBreakdown, ProfitCalculator};
use crate::text::{push_decimal, push_signed_decimal, push_str, spec_decimal, spec_signed_decimal};
use crate::uint::{u256_div, u256_lt, u256_sub, u256_to_decimal, U256};
use vstd::prelude::*;

verus! {

/// The largest gas a two or three hop swap can reasonably need; a quoter
/// that reverts reports far more.
pub const MAX_REASONABLE_GAS: u64 = 1_000_000;

/// Gas added to the quoted swaps for the flash loan.
pub const FLASH_LOAN_GAS: u64 = 50_000;

/// Confidence in a simulation result.
#[derive(Debug, Clone, Copy, PartialEq, Eq, Structural)]
pub enum SimulationConfidence {
    /// eth_call simulation passed.
    High,
    /// Quote-based calculation only.
    Medium,
    /// Stale data or estimation.
    Low,
    /// Simulation failed or reverted.
    Failed,
}

impl SimulationConfidence {
    /// The name shown for the level.
    pub fn display_name(&self) -> (r: &'static str)
        ensures
            *self == SimulationConfidence::High ==> r@ == "HIGH"@,
            *self == SimulationConfidence::Medium ==> r@ == "MEDIUM"@,
            *self == SimulationConfidence::Low ==> r@ == "LOW"@,
            *self == SimulationConfidence::Failed ==> r@ == "FAILED"@,
    {
        match self {
            SimulationConfidence::High => "HIGH",
            SimulationConfidence::Medium => "MEDIUM",
            SimulationConfidence::Low => "LOW",
            SimulationConfidence::Failed => "FAILED",
        }
    }
}

/// What a quoter needs to know of a pool.
#[derive(Debug, Clone, Copy, PartialEq, Eq)]
pub struct PoolInfo {
    pub address: Address,
    pub dex: Dex,
    pub token0: Address,
    pub token1: Address,
    pub fee: u32,
    pub liquidity: U256,
    /// Swapping token0 for token1.
    pub zero_for_one: bool,
    /// Uniswap V4 tick spacing.
    pub tick_spacing: Option<i32>,
    /// Uniswap V4 hooks contract.
    pub hooks: Option<Address>,
}

impl PoolInfo {
    /// The quoting view of a pool, swapping token0 for token1.
    pub fn from_pool(pool: &Pool) -> (r: PoolInfo)
        ensures
            r == (PoolInfo {
                address: pool.address,
                dex: pool.dex,
                token0: pool.token0,
                token1: pool.token1,
                fee: pool.fee,
                liquidity: pool.liquidity,
                zero_for_one: true,
                tick_spacing: None,
                hooks: None,
            }),
    {
        PoolInfo {
            address: pool.address,
            dex: pool.dex,
            token0: pool.token0,
            token1: pool.token1,
            fee: pool.fee,
            liquidity: pool.liquidity,
            zero_for_one: true,
            tick_spacing: None,
            hooks: None,
        }
    }
}

/// The pool of hop `i`: its tokens in order (token0 the smaller) and the
/// direction that swaps the hop's input token.
pub open spec fn spec_hop_info(
    path: Seq<Address>,
    pools: Seq<Address>,
    dexes: Seq<Dex>,
    fees: Seq<u32>,
    i: int,
) -> PoolInfo {
    let token_in = path[i];
    let token_out = path[i + 1];
    let token0 = if address_lt(token_in, token_out) {
        token_in
    } else {
        token_out
    };
    let token1 = if address_lt(token_in, token_out) {
        token_out
    } else {
        token_in
    };
    PoolInfo {
        address: pools[i],
        dex: dexes[i],
        token0,
        token1,
        fee: fees[i],
        liquidity: U256 { limbs: [0, 0, 0, 0] },
        zero_for_one: token_in == token0,
        tick_spacing: None,
        hooks: None,
    }
}

/// The pools of a cycle, one per hop, with the swap direction of each.
pub fn build_pool_infos(
    path: &Vec<Address>,
    pools: &Vec<Address>,
    dexes: &Vec<Dex>,
    fees: &Vec<u32>,
) -> (r: Vec<PoolInfo>)
    requires
        path@.len() >= pools@.len() + 1,
        dexes@.len() >= pools@.len(),
        fees@.len() >= pools@.len(),
    ensures
        r@.len() == pools@.len(),
        forall|i: int| 0 <= i < r@.len() ==> #[trigger] r@[i] == spec_hop_info(path@, pools@, dexes@, fees@, i),
{
    let mut r: Vec<PoolInfo> = Vec::new();
    let mut i: usize = 0;
    while i < pools.len()
        invariant
            i <= pools@.len(),
            path@.len() >= pools@.len() + 1,
            dexes@.len() >= pools@.len(),
            fees@.len() >= pools@.len(),
            r@.len() == i,
            forall|k: int| 0 <= k < i ==> #[trigger] r@[k] == spec_hop_info(path@, pools@, dexes@, fees@, k),
        decreases pools.len() - i,
    {
        let token_in = path[i];
        let token_out = path[i + 1];
        let less = address_less(token_in, token_out);
        let token0 = if less { token_in } else { token_out };
        let token1 = if less { token_out } else { token_in };
        r.push(PoolInfo {
            address: pools[i],
            dex: dexes[i],
            token0,
            token1,
            fee: fees[i],
            liquidity: U256::zero(),
            zero_for_one: token_in == token0,
            tick_spacing: None,
            hooks: None,
        });
        i = i + 1;
    }
    r
}

/// Low confidence when a quote gave nothing or a pool shows no liquidity,
/// medium otherwise (high would take an `eth_call` simulation).
pub open spec fn spec_confidence(amounts_out: Seq<U256>, liquidities: Seq<U256>) -> SimulationConfidence {
    if (exists|i: int| 0 <= i < amounts_out.len() && #[trigger] amounts_out[i].value() == 0) || (exists|i: int|
        0 <= i < liquidities.len() && #[trigger] liquidities[i].value() == 0) {
        SimulationConfidence::Low
    } else {
        SimulationConfidence::Medium
    }
}

/// Low confidence when a quote gave nothing or a pool shows no liquidity,
/// medium otherwise (high would need an eth_call simulation).
pub fn determine_confidence(amounts_out: &Vec<U256>, liquidities: &Vec<U256>) -> (r:
    SimulationConfidence)
    ensures
        r == spec_confidence(amounts_out@, liquidities@),
{
    let zero = U256::zero();
    let mut i: usize = 0;
    while i < amounts_out.len()
        invariant
            i <= amounts_out@.len(),
            zero.value() == 0,
            forall|k: int| 0 <= k < i ==> #[trigger] amounts_out@[k].value() != 0,
        decreases amounts_out.len() - i,
    {
        if !u256_lt(zero, amounts_out[i]) {
            return SimulationConfidence::Low;
        }
        i = i + 1;
    }
    let mut j: usize = 0;
    while j < liquidities.len()
        invariant
            j <= liquidities@.len(),
            zero.value() == 0,
            forall|k: int| 0 <= k < amounts_out@.len() ==> #[trigger] amounts_out@[k].value() != 0,
            forall|k: int| 0 <= k < j ==> #[trigger] liquidities@[k].value() != 0,
        decreases liquidities.len() - j,
    {
        if !u256_lt(zero, liquidities[j]) {
            return SimulationConfidence::Low;
        }
        j = j + 1;
    }
    SimulationConfidence::Medium
}

/// The sum of the first `n` fees.
pub open spec fn fee_sum(fees: Seq<u32>, n: int) -> int
    decreases n,
{
    if n <= 0 {
        0
    } else {
        fee_sum(fees, n - 1) + fees[n - 1]
    }
}

/// The fee sum stays within 32 bits at every step.
pub open spec fn fee_sum_ok(fees: Seq<u32>) -> bool {
    forall|n: int| 0 <= n <= fees.len() ==> #[trigger] fee_sum(fees, n) <= u32::MAX
}

/// How a quoted cycle is judged.
#[derive(Debug, Clone, Copy, PartialEq, Eq)]
pub enum QuoteAssessment {
    /// The gas estimate is above any reasonable swap: the quoter reverted.
    GasTooHigh { gas_units: u64 },
    /// The output is under half the input: a bad quote.
    OutputTooLow { loss_bps: i32 },
    /// The quotes are sound; here is the profit.
    Evaluated { breakdown: ProfitBreakdown, total_dex_fees_bps: u32, gas_units: u64 },
}

/// The loss in bps of an output under half the input: the shortfall over
/// the input (10000 for nothing at all), cut to an `i32`.
pub open spec fn spec_loss_bps(input: int, output: int) -> i32 {
    if output > 0 {
        (((input - output) * 10000) / input) as i32
    } else {
        10000
    }
}

/// The inputs on which the assessment runs without a panic.
pub open spec fn spec_assess_ok(
    calc: ProfitCalculator,
    input_amount: U256,
    gross_output: U256,
    total_gas_estimate: u64,
    fee_bps: Seq<u32>,
    gas_price: U256,
) -> bool {
    let gas_units = total_gas_estimate + FLASH_LOAN_GAS;
    &&& fee_sum_ok(fee_bps)
    &&& gas_units <= u64::MAX
    &&& (gas_units <= MAX_REASONABLE_GAS && gross_output.value() < input_amount.value() / 2
        && gross_output.value() > 0) ==> input_amount.value() <= u128::MAX && (
    input_amount.value() - gross_output.value()) * 10000 <= u128::MAX
    &&& (gas_units <= MAX_REASONABLE_GAS && gross_output.value() >= input_amount.value() / 2)
        ==> spec_calculate_ok(calc, input_amount, gross_output, gas_units as u64, gas_price)
}

/// `r` is how a cycle with these quotes is judged: a gas estimate (plus
/// the flash loan's 50000) above one million rejects it, then an output
/// under half the input, and otherwise the calculator's breakdown stands
/// with the hop fees added up.
pub open spec fn spec_assessed(
    r: QuoteAssessment,
    calc: ProfitCalculator,
    input_amount: U256,
    gross_output: U256,
    total_gas_estimate: u64,
    fee_bps: Seq<u32>,
    gas_price: U256,
) -> bool {
    let gas_units = (total_gas_estimate + FLASH_LOAN_GAS) as u64;
    if gas_units > MAX_REASONABLE_GAS {
        r == (QuoteAssessment::GasTooHigh { gas_units })
    } else if gross_output.value() < input_amount.value() / 2 {
        r == (QuoteAssessment::OutputTooLow {
            loss_bps: spec_loss_bps(input_amount.value(), gross_output.value()),
        })
    } else {
        r matches QuoteAssessment::Evaluated { breakdown, total_dex_fees_bps, gas_units: g }
            && total_dex_fees_bps == fee_sum(fee_bps, fee_bps.len() as int) && g == gas_units
            && spec_breakdown_of(
            breakdown,
            calc,
            input_amount,
            gross_output,
            total_dex_fees_bps,
            gas_units,
            gas_price,
        )
    }
}

/// Judge a cycle from its quotes: the hop fees are added up, 50000 gas is
/// added for the flash loan, a gas estimate above one million or an output
/// under half the input rejects the cycle, and otherwise the calculator
/// gives the breakdown.
pub fn assess_quotes(
    calc: &ProfitCalculator,
    input_amount: U256,
    gross_output: U256,
    total_gas_estimate: u64,
    fee_bps: &Vec<u32>,
    gas_price: U256,
) -> (r: QuoteAssessment)
    requires
        spec_assess_ok(*calc, input_amount, gross_output, total_gas_estimate, fee_bps@, gas_price),
    ensures
        spec_assessed(r, *calc, input_amount, gross_output, total_gas_estimate, fee_bps@, gas_price),
{
    let mut total_fees: u32 = 0;
    let mut i: usize = 0;
    while i < fee_bps.len()
        invariant
            i <= fee_bps@.len(),
            fee_sum_ok(fee_bps@),
            total_fees == fee_sum(fee_bps@, i as int),
        decreases fee_bps.len() - i,
    {
        assert(fee_sum(fee_bps@, i + 1) <= u32::MAX);
        total_fees = total_fees + fee_bps[i];
        i = i + 1;
    }
    let gas_units = total_gas_estimate + FLASH_LOAN_GAS;
    if gas_units > MAX_REASONABLE_GAS {
        return QuoteAssessment::GasTooHigh { gas_units };
    }
    let min_reasonable_output = u256_div(input_amount, U256::from_u64(2));
    if u256_lt(gross_output, min_reasonable_output) {
        let loss_bps: i32 = if u256_lt(U256::zero(), gross_output) {
            let shortfall = u256_sub(input_amount, gross_output);
            proof {
                crate::uint::lemma_value_bounds(input_amount);
                crate::uint::lemma_value_bounds(gross_output);
                vstd::arithmetic::div_mod::lemma_small_mod(
                    (input_amount.value() - gross_output.value()) as nat,
                    crate::uint::u256_modulus() as nat,
                );
            }
            let s = match shortfall.to_u128() {
                Some(v) => v,
                None => 0,
            };
            let inp = match input_amount.to_u128() {
                Some(v) => v,
                None => 1,
            };
            ((s * 10000) / inp) as i32
        } else {
            10000
        };
        return QuoteAssessment::OutputTooLow { loss_bps };
    }
    let breakdown = calc.calculate(input_amount, gross_output, total_fees, gas_units, gas_price);
    QuoteAssessment::Evaluated { breakdown, total_dex_fees_bps: total_fees, gas_units }
}

/// Why a cycle with an absurd gas estimate is rejected.
pub open spec fn spec_gas_too_high_reason(gas_units: u64) -> Seq<char> {
    "Gas estimate too high ("@ + spec_decimal(gas_units as nat) + " > "@ + spec_decimal(MAX_REASONABLE_GAS as nat)
        + "), likely swap would revert"@
}

/// Why a cycle whose output is under half its input is rejected.
pub open spec fn spec_output_too_low_reason(loss_bps: i32) -> Seq<char> {
    "Gross output too low (-"@ + spec_signed_decimal(loss_bps as int) + " bps), likely pool returned bad quote"@
}

/// "Gas estimate too high (`gas` > 1000000), likely swap would revert".
pub fn gas_too_high_reason(gas_units: u64) -> (r: String)
    ensures
        r@ == spec_gas_too_high_reason(gas_units),
{
    let mut s = String::new();
    push_str(&mut s, "Gas estimate too high (");
    push_decimal(&mut s, gas_units as u128);
    push_str(&mut s, " > ");
    push_decimal(&mut s, MAX_REASONABLE_GAS as u128);
    push_str(&mut s, "), likely swap would revert");
    s
}

/// "Gross output too low (-`loss` bps), likely pool returned bad quote".
pub fn output_too_low_reason(loss_bps: i32) -> (r: String)
    ensures
        r@ == spec_output_too_low_reason(loss_bps),
{
    let mut s = String::new();
    push_str(&mut s, "Gross output too low (-");
    push_signed_decimal(&mut s, loss_bps as i64);
    push_str(&mut s, " bps), likely pool returned bad quote");
    s
}

/// Why an evaluated cycle is not executed: a net loss with its costs, or
/// a profit under the threshold.
pub open spec fn spec_rejection_reason(b: ProfitBreakdown) -> Seq<char> {
    if b.net_profit_bps < 0 {
        "Net loss of "@ + spec_signed_decimal(-(b.net_profit_bps as int)) + " bps (DEX fees: "@ + spec_decimal(
            b.total_dex_fees_bps as nat,
        ) + " bps, flash loan: "@ + spec_decimal(b.flash_loan_fee_bps as nat) + " bps, gas: "@ + spec_decimal(
            b.gas_cost.value() as nat,
        ) + " wei)"@
    } else {
        "Profit "@ + spec_signed_decimal(b.net_profit_bps as int) + " bps below threshold "@ + spec_decimal(
            b.min_profit_threshold_bps as nat,
        ) + " bps"@
    }
}

/// Why an evaluated cycle is not executed.
pub fn build_rejection_reason(b: &ProfitBreakdown) -> (r: String)
    ensures
        r@ == spec_rejection_reason(*b),
{
    let mut s = String::new();
    if b.net_profit_bps < 0 {
        push_str(&mut s, "Net loss of ");
        push_signed_decimal(&mut s, -(b.net_profit_bps as i64));
        push_str(&mut s, " bps (DEX fees: ");
        push_decimal(&mut s, b.total_dex_fees_bps as u128);
        push_str(&mut s, " bps, flash loan: ");
        push_decimal(&mut s, b.flash_loan_fee_bps as u128);
        push_str(&mut s, " bps, gas: ");
        let gas = u256_to_decimal(b.gas_cost);
        push_str(&mut s, gas.as_str());
        push_str(&mut s, " wei)");
    } else {
        push_str(&mut s, "Profit ");
        push_signed_decimal(&mut s, b.net_profit_bps as i64);
        push_str(&mut s, " bps below threshold ");
        push_decimal(&mut s, b.min_profit_threshold_bps as u128);
        push_str(&mut s, " bps");
    }
    s
}

/// The breakdown of a cycle that was rejected before any profit was
/// computed: nothing but the input.
pub fn empty_breakdown(input_amount: U256) -> (r: ProfitBreakdown)
    ensures
        r.input_amount == input_amount,
        r.gross_output.value() == 0,
        r.net_output.value() == 0,
        r.gross_profit == 0,
        r.net_profit == 0,
        r.gross_profit_bps == 0,
        r.net_profit_bps == 0,
        !r.is_profitable,
        !r.above_threshold,
        r.min_profit_threshold_bps == 0,
{
    ProfitBreakdown {
        input_amount,
        gross_output: U256::zero(),
        total_dex_fees: U256::zero(),
        total_dex_fees_bps: 0,
        flash_loan_fee: U256::zero(),
        flash_loan_fee_bps: 0,
        gas_cost: U256::zero(),
        gas_price: U256::zero(),
        gas_units: 0,
        net_output: U256::zero(),
        gross_profit: 0,
        net_profit: 0,
        gross_profit_bps: 0,
        net_profit_bps: 0,
        is_profitable: false,
        min_profit_threshold_bps: 0,
        above_threshold: false,
    }
}

} // verus!
