//! Net profit of an arbitrage after swap fees, flash loan fee and gas.

use crate::uint::{
    lemma_value_bounds, u256_add, u256_div, u256_lt, u256_modulus, u256_mul, u256_saturating_sub,
    u256_sub, U256,
};
use crate::text::{
    push_decimal, push_padded_decimal, push_signed_decimal, push_str, spec_decimal,
    spec_padded_decimal, spec_signed_decimal,
};
use vstd::prelude::*;

verus! {

/// Where the borrowed capital comes from.
#[derive(Debug, Clone, Copy, PartialEq, Eq, Structural)]
pub enum FlashLoanProvider {
    /// Neverland flash loan (9 bps fee).
    Neverland,
    /// Aave V3 (5 bps fee).
    AaveV3,
    /// No flash loan (own capital).
    NoProvider,
}

/// The fee of a provider in basis points.
pub open spec fn spec_fee_bps(p: FlashLoanProvider) -> u32 {
    match p {
        FlashLoanProvider::Neverland => 9,
        FlashLoanProvider::AaveV3 => 5,
        FlashLoanProvider::NoProvider => 0,
    }
}

impl FlashLoanProvider {
    /// The flash loan fee in basis points.
    pub fn fee_bps(&self) -> (r: u32)
        ensures
            r == spec_fee_bps(*self),
    {
        match self {
            FlashLoanProvider::Neverland => 9,
            FlashLoanProvider::AaveV3 => 5,
            FlashLoanProvider::NoProvider => 0,
        }
    }

    /// The provider's name.
    pub fn name(&self) -> (r: &'static str)
        ensures
            *self == FlashLoanProvider::Neverland ==> r@ == "Neverland"@,
            *self == FlashLoanProvider::AaveV3 ==> r@ == "Aave V3"@,
            *self == FlashLoanProvider::NoProvider ==> r@ == "None"@,
    {
        match self {
            FlashLoanProvider::Neverland => "Neverland",
            FlashLoanProvider::AaveV3 => "Aave V3",
            FlashLoanProvider::NoProvider => "None",
        }
    }
}

/// Breakdown of all costs of one arbitrage execution.
#[derive(Debug, Clone, Copy, PartialEq, Eq)]
pub struct ProfitBreakdown {
    /// Input amount (borrowed or own capital).
    pub input_amount: U256,
    /// Output of the swaps, swap fees already taken.
    pub gross_output: U256,
    /// DEX fees, as a share of the input.
    pub total_dex_fees: U256,
    pub total_dex_fees_bps: u32,
    pub flash_loan_fee: U256,
    pub flash_loan_fee_bps: u32,
    /// Gas cost in the native token.
    pub gas_cost: U256,
    pub gas_price: U256,
    pub gas_units: u64,
    /// Output after the flash loan fee and gas.
    pub net_output: U256,
    /// gross_output - input_amount
    pub gross_profit: i128,
    /// net_output - input_amount
    pub net_profit: i128,
    pub gross_profit_bps: i32,
    pub net_profit_bps: i32,
    pub is_profitable: bool,
    /// Profit required (bps) before executing.
    pub min_profit_threshold_bps: u32,
    pub above_threshold: bool,
}

/// Profit calculator for arbitrage opportunities.
#[derive(Debug, Clone, Copy, PartialEq, Eq, Structural)]
pub struct ProfitCalculator {
    flash_loan_provider: FlashLoanProvider,
    /// Minimum profit threshold in bps.
    min_profit_bps: u32,
    /// Margin added to the required profit (slippage buffer), in bps.
    safety_margin_bps: u32,
}

/// `a * bps / 10000` as the 256-bit arithmetic computes it (the product
/// wraps at 2^256).
pub open spec fn spec_bps_of(a: U256, bps: int) -> int {
    ((a.value() * bps) % u256_modulus()) / 10000
}

/// `a - b` clamped at zero.
pub open spec fn spec_sat_sub(a: int, b: int) -> int {
    if a >= b {
        a - b
    } else {
        0
    }
}

/// A signed profit from an output and an input whose distance fits a
/// `u128`: the distance is taken as a `u128` and reinterpreted as an
/// `i128`, then negated when the output is the smaller.
pub open spec fn spec_signed_profit(output: int, input: int) -> i128 {
    if output >= input {
        ((output - input) as u128) as i128
    } else {
        (-(((input - output) as u128) as i128)) as i128
    }
}

/// The distance between output and input can be taken as above without a
/// panic: it fits a `u128`, and a negative profit can be negated.
pub open spec fn spec_signed_profit_ok(output: int, input: int) -> bool {
    if output >= input {
        output - input <= u128::MAX
    } else {
        input - output <= u128::MAX && ((input - output) as u128) as i128 != i128::MIN
    }
}

/// Rust's `/` on signed integers: the quotient rounded toward zero.
pub open spec fn spec_div_toward_zero(x: int, d: int) -> int {
    if x == 0 {
        0
    } else if x > 0 && d > 0 {
        x / d
    } else if x < 0 && d < 0 {
        (-x) / (-d)
    } else if x < 0 {
        -((-x) / d)
    } else {
        -(x / (-d))
    }
}

/// Profit in basis points of an input (zero for an empty input); the input
/// is reinterpreted as an `i128` and the quotient truncated to an `i32`,
/// as the code does.
pub open spec fn spec_profit_bps(profit: i128, input: u128) -> i32 {
    if input > 0 {
        spec_div_toward_zero(profit * 10000, (input as i128) as int) as i32
    } else {
        0
    }
}

/// The flash loan fee of an input.
pub open spec fn spec_flash_fee(c: ProfitCalculator, input: U256) -> int {
    spec_bps_of(input, spec_fee_bps(c.provider()) as int)
}

/// The gas cost: units times price, wrapping at 2^256.
pub open spec fn spec_gas_cost(gas_units: u64, gas_price: U256) -> int {
    (gas_units * gas_price.value()) % u256_modulus()
}

/// The output left after the flash loan fee and the gas cost.
pub open spec fn spec_net_output(c: ProfitCalculator, input: U256, gross_output: U256, gas_units: u64, gas_price: U256) -> int {
    spec_sat_sub(
        spec_sat_sub(gross_output.value(), spec_flash_fee(c, input)),
        spec_gas_cost(gas_units, gas_price),
    )
}

/// `r` is the breakdown that `calculate` gives for these inputs.
pub open spec fn spec_breakdown_of(
    r: ProfitBreakdown,
    c: ProfitCalculator,
    input_amount: U256,
    gross_output: U256,
    total_dex_fees_bps: u32,
    gas_units: u64,
    gas_price: U256,
) -> bool {
    &&& r.input_amount == input_amount
    &&& r.gross_output == gross_output
    &&& r.total_dex_fees.value() == spec_bps_of(input_amount, total_dex_fees_bps as int)
    &&& r.total_dex_fees_bps == total_dex_fees_bps
    &&& r.flash_loan_fee.value() == spec_flash_fee(c, input_amount)
    &&& r.flash_loan_fee_bps == spec_fee_bps(c.provider())
    &&& r.gas_cost.value() == spec_gas_cost(gas_units, gas_price)
    &&& r.gas_price == gas_price
    &&& r.gas_units == gas_units
    &&& r.net_output.value() == spec_net_output(c, input_amount, gross_output, gas_units, gas_price)
    &&& r.gross_profit == spec_signed_profit(gross_output.value(), input_amount.value())
    &&& r.net_profit == spec_signed_profit(r.net_output.value(), input_amount.value())
    &&& r.gross_profit_bps == spec_profit_bps(r.gross_profit, input_amount.value() as u128)
    &&& r.net_profit_bps == spec_profit_bps(r.net_profit, input_amount.value() as u128)
    &&& r.is_profitable == (r.net_profit > 0)
    &&& r.min_profit_threshold_bps == c.min_profit() + c.safety_margin()
    &&& r.above_threshold == (r.net_profit_bps >= r.min_profit_threshold_bps)
}

/// The inputs on which `calculate` runs without a panic.
pub open spec fn spec_calculate_ok(c: ProfitCalculator, input: U256, gross_output: U256, gas_units: u64, gas_price: U256) -> bool {
    let net = spec_net_output(c, input, gross_output, gas_units, gas_price);
    let gp = spec_signed_profit(gross_output.value(), input.value());
    let np = spec_signed_profit(net, input.value());
    &&& spec_signed_profit_ok(gross_output.value(), input.value())
    &&& spec_signed_profit_ok(net, input.value())
    &&& input.value() <= u128::MAX
    &&& input.value() > 0 ==> i128::MIN <= gp * 10000 <= i128::MAX
    &&& input.value() > 0 ==> i128::MIN <= np * 10000 <= i128::MAX
    &&& c.min_profit() + c.safety_margin() <= u32::MAX
}

impl ProfitCalculator {
    /// The flash loan provider in use.
    pub closed spec fn provider(self) -> FlashLoanProvider {
        self.flash_loan_provider
    }

    /// The minimum profit in bps.
    pub closed spec fn min_profit(self) -> u32 {
        self.min_profit_bps
    }

    /// The safety margin in bps.
    pub closed spec fn safety_margin(self) -> u32 {
        self.safety_margin_bps
    }

    pub fn new(flash_loan_provider: FlashLoanProvider, min_profit_bps: u32, safety_margin_bps: u32) -> (r:
        Self)
        ensures
            r.provider() == flash_loan_provider,
            r.min_profit() == min_profit_bps,
            r.safety_margin() == safety_margin_bps,
    {
        ProfitCalculator { flash_loan_provider, min_profit_bps, safety_margin_bps }
    }

    /// The full breakdown for an opportunity.
    pub fn calculate(
        &self,
        input_amount: U256,
        gross_output: U256,
        total_dex_fees_bps: u32,
        gas_units: u64,
        gas_price: U256,
    ) -> (r: ProfitBreakdown)
        requires
            spec_calculate_ok(*self, input_amount, gross_output, gas_units, gas_price),
        ensures
            spec_breakdown_of(r, *self, input_amount, gross_output, total_dex_fees_bps, gas_units, gas_price),
    {
        let ten_thousand = U256::from_u64(10000);
        let total_dex_fees = u256_div(
            u256_mul(input_amount, U256::from_u64(total_dex_fees_bps as u64)),
            ten_thousand,
        );
        let flash_loan_fee_bps = self.flash_loan_provider.fee_bps();
        let flash_loan_fee = u256_div(
            u256_mul(input_amount, U256::from_u64(flash_loan_fee_bps as u64)),
            ten_thousand,
        );
        let gas_cost = u256_mul(U256::from_u64(gas_units), gas_price);
        let net_output = u256_saturating_sub(
            u256_saturating_sub(gross_output, flash_loan_fee),
            gas_cost,
        );
        let gross_profit = signed_profit(gross_output, input_amount);
        let net_profit = signed_profit(net_output, input_amount);
        let input_u128 = match input_amount.to_u128() {
            Some(v) => v,
            None => 0,
        };
        let gross_profit_bps = profit_bps(gross_profit, input_u128);
        let net_profit_bps = profit_bps(net_profit, input_u128);
        let is_profitable = net_profit > 0;
        let threshold = self.min_profit_bps + self.safety_margin_bps;
        let above_threshold = net_profit_bps as i64 >= threshold as i64;
        ProfitBreakdown {
            input_amount,
            gross_output,
            total_dex_fees,
            total_dex_fees_bps,
            flash_loan_fee,
            flash_loan_fee_bps,
            gas_cost,
            gas_price,
            gas_units,
            net_output,
            gross_profit,
            net_profit,
            gross_profit_bps,
            net_profit_bps,
            is_profitable,
            min_profit_threshold_bps: threshold,
            above_threshold,
        }
    }

    /// The output needed for an execution to clear the profit threshold:
    /// input + flash loan fee + gas + minimum profit (sums wrap at 2^256).
    pub fn minimum_output_for_profit(&self, input_amount: U256, gas_cost: U256) -> (r: U256)
        requires
            self.min_profit() + self.safety_margin() <= u32::MAX,
        ensures
            r.value() == (input_amount.value() + spec_flash_fee(*self, input_amount)
                + gas_cost.value() + spec_bps_of(
                input_amount,
                self.min_profit() + self.safety_margin(),
            )) % u256_modulus(),
    {
        let ten_thousand = U256::from_u64(10000);
        let flash_loan_fee = u256_div(
            u256_mul(input_amount, U256::from_u64(self.flash_loan_provider.fee_bps() as u64)),
            ten_thousand,
        );
        let min_profit = u256_div(
            u256_mul(
                input_amount,
                U256::from_u64((self.min_profit_bps + self.safety_margin_bps) as u64),
            ),
            ten_thousand,
        );
        let a = u256_add(input_amount, flash_loan_fee);
        let b = u256_add(a, gas_cost);
        let r = u256_add(b, min_profit);
        proof {
            lemma_add_mod3(
                input_amount.value(),
                flash_loan_fee.value(),
                gas_cost.value(),
                min_profit.value(),
            );
        }
        r
    }

    /// The output at which the net profit is zero: input + flash loan fee
    /// + gas (sums wrap at 2^256).
    pub fn breakeven_output(&self, input_amount: U256, gas_cost: U256) -> (r: U256)
        ensures
            r.value() == (input_amount.value() + spec_flash_fee(*self, input_amount)
                + gas_cost.value()) % u256_modulus(),
    {
        let flash_loan_fee = u256_div(
            u256_mul(input_amount, U256::from_u64(self.flash_loan_provider.fee_bps() as u64)),
            U256::from_u64(10000),
        );
        let a = u256_add(input_amount, flash_loan_fee);
        let r = u256_add(a, gas_cost);
        proof {
            lemma_add_mod2(input_amount.value(), flash_loan_fee.value(), gas_cost.value());
        }
        r
    }

    /// The gross profit (bps) needed for the target net profit.
    pub fn required_gross_profit_bps(&self, gas_cost_bps: u32) -> (r: u32)
        requires
            spec_fee_bps(self.provider()) + gas_cost_bps + self.min_profit() + self.safety_margin()
                <= u32::MAX,
        ensures
            r == spec_fee_bps(self.provider()) + gas_cost_bps + self.min_profit()
                + self.safety_margin(),
    {
        self.flash_loan_provider.fee_bps() + gas_cost_bps + self.min_profit_bps
            + self.safety_margin_bps
    }

    /// The flash loan provider in use.
    pub fn flash_loan_provider(&self) -> (r: FlashLoanProvider)
        ensures
            r == self.provider(),
    {
        self.flash_loan_provider
    }

    /// Switch to another flash loan provider.
    pub fn set_flash_loan_provider(&mut self, provider: FlashLoanProvider)
        ensures
            final(self).provider() == provider,
            final(self).min_profit() == old(self).min_profit(),
            final(self).safety_margin() == old(self).safety_margin(),
    {
        self.flash_loan_provider = provider;
    }
}

impl Default for ProfitCalculator {
    /// Neverland flash loans, 10 bps minimum profit, 5 bps safety margin.
    fn default() -> (r: Self)
        ensures
            r.provider() == FlashLoanProvider::Neverland,
            r.min_profit() == 10,
            r.safety_margin() == 5,
    {
        ProfitCalculator {
            flash_loan_provider: FlashLoanProvider::Neverland,
            min_profit_bps: 10,
            safety_margin_bps: 5,
        }
    }
}


/// Costs only take away: the net output never exceeds the gross output.
pub proof fn law_net_output_at_most_gross(
    c: ProfitCalculator,
    input: U256,
    gross_output: U256,
    gas_units: u64,
    gas_price: U256,
)
    ensures
        0 <= spec_net_output(c, input, gross_output, gas_units, gas_price) <= gross_output.value(),
{
    lemma_value_bounds(gross_output);
    lemma_value_bounds(gas_price);
    let g = spec_gas_cost(gas_units, gas_price);
    assert(g >= 0) by {
        vstd::arithmetic::div_mod::lemma_mod_bound(gas_units * gas_price.value(), u256_modulus());
    }
    assert(spec_flash_fee(c, input) >= 0) by {
        lemma_value_bounds(input);
        vstd::arithmetic::div_mod::lemma_mod_bound(
            input.value() * spec_fee_bps(c.provider()),
            u256_modulus(),
        );
    }
}

/// At the breakeven output (when the sum does not wrap) the flash loan fee
/// and the gas cost eat exactly the surplus: the net output equals the
/// input, so the net profit is zero.
pub proof fn law_breakeven_nets_input(
    c: ProfitCalculator,
    input: U256,
    gas_units: u64,
    gas_price: U256,
    breakeven: U256,
)
    requires
        input.value() + spec_flash_fee(c, input) + spec_gas_cost(gas_units, gas_price)
            < u256_modulus(),
        breakeven.value() == (input.value() + spec_flash_fee(c, input) + spec_gas_cost(
            gas_units,
            gas_price,
        )) % u256_modulus(),
    ensures
        spec_net_output(c, input, breakeven, gas_units, gas_price) == input.value(),
        spec_signed_profit(
            spec_net_output(c, input, breakeven, gas_units, gas_price),
            input.value(),
        ) == 0,
{
    lemma_value_bounds(input);
    lemma_value_bounds(gas_price);
    vstd::arithmetic::div_mod::lemma_mod_bound(gas_units * gas_price.value(), u256_modulus());
    vstd::arithmetic::div_mod::lemma_mod_bound(
        input.value() * spec_fee_bps(c.provider()),
        u256_modulus(),
    );
    let t = input.value() + spec_flash_fee(c, input) + spec_gas_cost(gas_units, gas_price);
    vstd::arithmetic::div_mod::lemma_small_mod(t as nat, u256_modulus() as nat);
    assert(((0int) as u128) as i128 == 0) by (bit_vector);
}

/// The output the profit threshold asks for is never below the breakeven
/// output (when neither sum wraps).
pub proof fn law_breakeven_below_minimum(c: ProfitCalculator, input: U256, gas_cost: U256)
    requires
        input.value() + spec_flash_fee(c, input) + gas_cost.value() + spec_bps_of(
            input,
            c.min_profit() + c.safety_margin(),
        ) < u256_modulus(),
    ensures
        (input.value() + spec_flash_fee(c, input) + gas_cost.value()) % u256_modulus() <= (
        input.value() + spec_flash_fee(c, input) + gas_cost.value() + spec_bps_of(
            input,
            c.min_profit() + c.safety_margin(),
        )) % u256_modulus(),
{
    lemma_value_bounds(input);
    lemma_value_bounds(gas_cost);
    vstd::arithmetic::div_mod::lemma_mod_bound(
        input.value() * spec_fee_bps(c.provider()),
        u256_modulus(),
    );
    vstd::arithmetic::div_mod::lemma_mod_bound(
        input.value() * (c.min_profit() + c.safety_margin()),
        u256_modulus(),
    );
    let a = input.value() + spec_flash_fee(c, input) + gas_cost.value();
    let b = a + spec_bps_of(input, c.min_profit() + c.safety_margin());
    vstd::arithmetic::div_mod::lemma_small_mod(a as nat, u256_modulus() as nat);
    vstd::arithmetic::div_mod::lemma_small_mod(b as nat, u256_modulus() as nat);
}

/// With a net output above the input by less than 2^127, the breakdown
/// calls the opportunity profitable, and with one at or below the input it
/// does not.
pub proof fn law_profitable_iff_net_above_input(net_output: int, input: int)
    requires
        0 <= net_output,
        0 <= input,
        net_output - input < 0x8000_0000_0000_0000_0000_0000_0000_0000,
        input - net_output < 0x8000_0000_0000_0000_0000_0000_0000_0000,
    ensures
        (spec_signed_profit(net_output, input) > 0) == (net_output > input),
{
    if net_output >= input {
        let d = (net_output - input) as u128;
        assert(d < 0x8000_0000_0000_0000_0000_0000_0000_0000 ==> (d as i128) as int == d as int)
            by (bit_vector);
    } else {
        let d = (input - net_output) as u128;
        assert(d < 0x8000_0000_0000_0000_0000_0000_0000_0000 ==> (d as i128) as int == d as int)
            by (bit_vector);
    }
}

/// A signed profit whose size is below 2^127 is the exact difference.
proof fn lemma_signed_profit_exact(output: int, input: int)
    requires
        0 <= output,
        0 <= input,
        output - input < 0x8000_0000_0000_0000_0000_0000_0000_0000,
        input - output < 0x8000_0000_0000_0000_0000_0000_0000_0000,
    ensures
        spec_signed_profit(output, input) as int == output - input,
{
    if output >= input {
        let d = (output - input) as u128;
        assert(d < 0x8000_0000_0000_0000_0000_0000_0000_0000 ==> (d as i128) as int == d as int)
            by (bit_vector);
    } else {
        let d = (input - output) as u128;
        assert(d < 0x8000_0000_0000_0000_0000_0000_0000_0000 ==> (d as i128) as int == d as int)
            by (bit_vector);
    }
}

/// Truncating division by a positive number keeps the order.
proof fn lemma_div_toward_zero_monotone(x: int, y: int, d: int)
    requires
        x <= y,
        d > 0,
    ensures
        spec_div_toward_zero(x, d) <= spec_div_toward_zero(y, d),
{
    if x >= 0 {
        assert(x / d <= y / d) by (nonlinear_arith)
            requires
                0 <= x <= y,
                d > 0,
        ;
    } else if y >= 0 {
        assert(-((-x) / d) <= 0) by (nonlinear_arith)
            requires
                -x > 0,
                d > 0,
        ;
        assert(y / d >= 0) by (nonlinear_arith)
            requires
                y >= 0,
                d > 0,
        ;
    } else {
        assert((-y) / d <= (-x) / d) by (nonlinear_arith)
            requires
                0 < -y <= -x,
                d > 0,
        ;
    }
}

/// Truncating division of a non-positive number by a positive one is not
/// positive.
proof fn lemma_div_toward_zero_nonpositive(x: int, d: int)
    requires
        x <= 0,
        d > 0,
    ensures
        spec_div_toward_zero(x, d) <= 0,
{
    if x < 0 {
        assert((-x) / d >= 0) by (nonlinear_arith)
            requires
                -x > 0,
                d > 0,
        ;
    }
}

/// Truncating division by a positive number, of a value between `-10000 d`
/// and `i32::MAX * d`, lies between -10000 and `i32::MAX`.
proof fn lemma_div_toward_zero_range(x: int, d: int)
    requires
        -10000 * d <= x <= 0x7fff_ffff * d,
        d > 0,
    ensures
        -10000 <= spec_div_toward_zero(x, d) <= 0x7fff_ffff,
{
    lemma_div_toward_zero_monotone(-10000 * d, x, d);
    lemma_div_toward_zero_monotone(x, 0x7fff_ffff * d, d);
    assert((10000 * d) / d == 10000) by (nonlinear_arith)
        requires
            d > 0,
    ;
    assert((0x7fff_ffff * d) / d == 0x7fff_ffff) by (nonlinear_arith)
        requires
            d > 0,
    ;
}

/// How the parts of a breakdown relate: the net profit is never above the
/// gross profit, in amount or in bps; an opportunity above a positive
/// threshold is profitable; and it is profitable exactly when its net
/// output exceeds its input. Amounts stay below 2^100 (no wrap, no
/// truncation) and the gross profit's bps fit 32 bits.
pub proof fn law_breakdown_relations(
    r: ProfitBreakdown,
    c: ProfitCalculator,
    input: U256,
    gross_output: U256,
    total_dex_fees_bps: u32,
    gas_units: u64,
    gas_price: U256,
)
    requires
        spec_breakdown_of(r, c, input, gross_output, total_dex_fees_bps, gas_units, gas_price),
        0 < input.value() < 0x10_0000_0000_0000_0000_0000_0000,
        gross_output.value() < 0x10_0000_0000_0000_0000_0000_0000,
        (gross_output.value() - input.value()) * 10000 <= 0x7fff_ffff * input.value(),
    ensures
        r.net_profit <= r.gross_profit,
        r.net_profit_bps <= r.gross_profit_bps,
        r.is_profitable == (r.net_output.value() > input.value()),
        r.min_profit_threshold_bps >= 1 && r.above_threshold ==> r.is_profitable,
{
    law_net_output_at_most_gross(c, input, gross_output, gas_units, gas_price);
    let d = input.value();
    let g = gross_output.value();
    let n = r.net_output.value();
    lemma_signed_profit_exact(g, d);
    lemma_signed_profit_exact(n, d);
    assert(((d as u128) as i128) as int == d) by {
        let x = d as u128;
        assert(x < 0x10_0000_0000_0000_0000_0000_0000 ==> (x as i128) as int == x as int) by (bit_vector);
    }
    let gp = r.gross_profit as int;
    let np = r.net_profit as int;
    assert(np <= gp);
    assert(np * 10000 <= gp * 10000);
    lemma_div_toward_zero_monotone(np * 10000, gp * 10000, d);
    lemma_div_toward_zero_range(np * 10000, d);
    lemma_div_toward_zero_range(gp * 10000, d);
    if np <= 0 {
        lemma_div_toward_zero_nonpositive(np * 10000, d);
    }
}

proof fn lemma_add_mod2(a: int, b: int, c: int)
    ensures
        (((a + b) % u256_modulus()) + c) % u256_modulus() == (a + b + c) % u256_modulus(),
{
    vstd::arithmetic::div_mod::lemma_add_mod_noop(a + b, c, u256_modulus());
    vstd::arithmetic::div_mod::lemma_mod_twice(a + b, u256_modulus());
    vstd::arithmetic::div_mod::lemma_add_mod_noop((a + b) % u256_modulus(), c, u256_modulus());
}

proof fn lemma_add_mod3(a: int, b: int, c: int, d: int)
    ensures
        (((((a + b) % u256_modulus()) + c) % u256_modulus()) + d) % u256_modulus() == (a + b + c
            + d) % u256_modulus(),
{
    lemma_add_mod2(a, b, c);
    lemma_add_mod2(a + b, c, d);
    vstd::arithmetic::div_mod::lemma_add_mod_noop((a + b + c), d, u256_modulus());
    vstd::arithmetic::div_mod::lemma_add_mod_noop(((a + b) % u256_modulus() + c), d, u256_modulus());
}

/// The signed distance between an output and the input, as in `calculate`.
fn signed_profit(output: U256, input: U256) -> (r: i128)
    requires
        spec_signed_profit_ok(output.value(), input.value()),
    ensures
        r == spec_signed_profit(output.value(), input.value()),
{
    if !u256_lt(output, input) {
        let d = u256_sub(output, input);
        proof {
            lemma_value_bounds(output);
            lemma_value_bounds(input);
            vstd::arithmetic::div_mod::lemma_small_mod((output.value() - input.value()) as nat, u256_modulus() as nat);
        }
        let v = match d.to_u128() {
            Some(v) => v,
            None => 0,
        };
        v as i128
    } else {
        let d = u256_sub(input, output);
        proof {
            lemma_value_bounds(output);
            lemma_value_bounds(input);
            vstd::arithmetic::div_mod::lemma_small_mod((input.value() - output.value()) as nat, u256_modulus() as nat);
        }
        let v = match d.to_u128() {
            Some(v) => v,
            None => 0,
        };
        -(v as i128)
    }
}

/// Profit in bps of the input, as in `calculate`.
fn profit_bps(profit: i128, input: u128) -> (r: i32)
    requires
        input > 0 ==> i128::MIN <= profit * 10000 <= i128::MAX,
    ensures
        r == spec_profit_bps(profit, input),
{
    if input > 0 {
        let num = profit * 10000;
        let den = input as i128;
        proof {
            assert(den != 0) by (bit_vector)
                requires
                    den == input as i128,
                    input > 0,
            ;
        }
        let q = match num.checked_div(den) {
            Some(q) => q,
            None => 0,
        };
        q as i32
    } else {
        0
    }
}

/// One whole token of 18 decimals.
pub const WEI_PER_TOKEN: u128 = 1_000_000_000_000_000_000;

/// An 18-decimal amount as "`whole`.`four decimals`" (truncated).
pub open spec fn spec_format_amount(amount: int) -> Seq<char> {
    spec_decimal((amount / 1_000_000_000_000_000_000) as nat) + "."@ + spec_padded_decimal(
        ((amount % 1_000_000_000_000_000_000) / 100_000_000_000_000) as nat,
        4,
    )
}

/// An 18-decimal amount in whole tokens with four decimals (the amount
/// must fit 128 bits).
pub fn format_amount(amount: U256) -> (r: String)
    requires
        amount.value() <= u128::MAX,
    ensures
        r@ == spec_format_amount(amount.value()),
{
    let a: u128 = match amount.to_u128() {
        Some(v) => v,
        None => 0,
    };
    let whole = a / WEI_PER_TOKEN;
    let frac = (a % WEI_PER_TOKEN) / 100_000_000_000_000;
    let mut s = String::new();
    push_decimal(&mut s, whole);
    push_str(&mut s, ".");
    push_padded_decimal(&mut s, frac, 4);
    s
}

/// A gas cost in MON: "~0" for nothing, else "`whole`.`four decimals` MON".
pub open spec fn spec_format_gas_cost(cost: int) -> Seq<char> {
    if cost == 0 {
        "~0"@
    } else {
        spec_format_amount(cost) + " MON"@
    }
}

/// A gas cost in MON (the cost must fit 128 bits).
pub fn format_gas_cost(gas_cost: U256) -> (r: String)
    requires
        gas_cost.value() <= u128::MAX,
    ensures
        r@ == spec_format_gas_cost(gas_cost.value()),
{
    let c: u128 = match gas_cost.to_u128() {
        Some(v) => v,
        None => 0,
    };
    if c == 0 {
        return "~0".to_string();
    }
    let mut s = format_amount(gas_cost);
    push_str(&mut s, " MON");
    s
}

/// The verdict line of a breakdown.
pub open spec fn spec_status(b: ProfitBreakdown) -> Seq<char> {
    if b.above_threshold {
        "PROFITABLE ✓"@
    } else if b.is_profitable {
        "PROFITABLE (below threshold)"@
    } else {
        "NOT PROFITABLE ✗"@
    }
}

/// "Gross: `g` bps | DEX Fees: -`d` bps | Flash Loan: -`f` bps | Gas: ~`cost` | Net: `n` bps"
pub open spec fn spec_summary(b: ProfitBreakdown) -> Seq<char> {
    "Gross: "@ + spec_signed_decimal(b.gross_profit_bps as int) + " bps | DEX Fees: -"@ + spec_decimal(
        b.total_dex_fees_bps as nat,
    ) + " bps | Flash Loan: -"@ + spec_decimal(b.flash_loan_fee_bps as nat) + " bps | Gas: ~"@
        + spec_format_gas_cost(b.gas_cost.value()) + " | Net: "@ + spec_signed_decimal(
        b.net_profit_bps as int,
    ) + " bps"@
}

/// The amounts of a breakdown fit 128 bits, as its formatting needs.
pub open spec fn spec_breakdown_printable(b: ProfitBreakdown) -> bool {
    &&& b.input_amount.value() <= u128::MAX
    &&& b.gross_output.value() <= u128::MAX
    &&& b.total_dex_fees.value() <= u128::MAX
    &&& b.flash_loan_fee.value() <= u128::MAX
    &&& b.gas_cost.value() <= u128::MAX
    &&& b.net_output.value() <= u128::MAX
}

/// The detailed breakdown, one cost per line.
pub open spec fn spec_detailed_breakdown(b: ProfitBreakdown) -> Seq<char> {
    "\n   Input Amount:    "@ + spec_format_amount(b.input_amount.value()) + "\n   Gross Output:    "@
        + spec_format_amount(b.gross_output.value()) + "\n   ─────────────────────────\n   DEX Fees:        -"@
        + spec_format_amount(b.total_dex_fees.value()) + " ("@ + spec_decimal(b.total_dex_fees_bps as nat)
        + " bps)\n   Flash Loan Fee:  -"@ + spec_format_amount(b.flash_loan_fee.value()) + " ("@
        + spec_decimal(b.flash_loan_fee_bps as nat) + " bps)\n   Gas Cost:        -"@ + spec_format_amount(
        b.gas_cost.value(),
    ) + " (~"@ + spec_decimal(b.gas_units as nat) + " gas @ "@ + spec_decimal(
        (b.gas_price.value() / 1_000_000_000) as nat,
    ) + " gwei)\n   ─────────────────────────\n   Net Output:      "@ + spec_format_amount(
        b.net_output.value(),
    ) + "\n   Gross Profit:    "@ + spec_signed_decimal(b.gross_profit_bps as int)
        + " bps\n   NET PROFIT:      "@ + spec_signed_decimal(b.net_profit_bps as int)
        + " bps\n   Status:          "@ + spec_status(b)
}

impl ProfitBreakdown {
    /// A one-line summary for logs.
    pub fn summary(&self) -> (r: String)
        requires
            self.gas_cost.value() <= u128::MAX,
        ensures
            r@ == spec_summary(*self),
    {
        let mut s = String::new();
        push_str(&mut s, "Gross: ");
        push_signed_decimal(&mut s, self.gross_profit_bps as i64);
        push_str(&mut s, " bps | DEX Fees: -");
        push_decimal(&mut s, self.total_dex_fees_bps as u128);
        push_str(&mut s, " bps | Flash Loan: -");
        push_decimal(&mut s, self.flash_loan_fee_bps as u128);
        push_str(&mut s, " bps | Gas: ~");
        let gas = format_gas_cost(self.gas_cost);
        push_str(&mut s, gas.as_str());
        push_str(&mut s, " | Net: ");
        push_signed_decimal(&mut s, self.net_profit_bps as i64);
        push_str(&mut s, " bps");
        s
    }

    /// The breakdown, one cost per line, with the verdict.
    pub fn detailed_breakdown(&self) -> (r: String)
        requires
            spec_breakdown_printable(*self),
        ensures
            r@ == spec_detailed_breakdown(*self),
    {
        let mut s = String::new();
        push_str(&mut s, "\n   Input Amount:    ");
        push_str(&mut s, format_amount(self.input_amount).as_str());
        push_str(&mut s, "\n   Gross Output:    ");
        push_str(&mut s, format_amount(self.gross_output).as_str());
        push_str(&mut s, "\n   ─────────────────────────\n   DEX Fees:        -");
        push_str(&mut s, format_amount(self.total_dex_fees).as_str());
        push_str(&mut s, " (");
        push_decimal(&mut s, self.total_dex_fees_bps as u128);
        push_str(&mut s, " bps)\n   Flash Loan Fee:  -");
        push_str(&mut s, format_amount(self.flash_loan_fee).as_str());
        push_str(&mut s, " (");
        push_decimal(&mut s, self.flash_loan_fee_bps as u128);
        push_str(&mut s, " bps)\n   Gas Cost:        -");
        push_str(&mut s, format_amount(self.gas_cost).as_str());
        push_str(&mut s, " (~");
        push_decimal(&mut s, self.gas_units as u128);
        push_str(&mut s, " gas @ ");
        let gwei = u256_div(self.gas_price, U256::from_u64(1_000_000_000));
        let g = crate::uint::u256_to_decimal(gwei);
        push_str(&mut s, g.as_str());
        push_str(&mut s, " gwei)\n   ─────────────────────────\n   Net Output:      ");
        push_str(&mut s, format_amount(self.net_output).as_str());
        push_str(&mut s, "\n   Gross Profit:    ");
        push_signed_decimal(&mut s, self.gross_profit_bps as i64);
        push_str(&mut s, " bps\n   NET PROFIT:      ");
        push_signed_decimal(&mut s, self.net_profit_bps as i64);
        push_str(&mut s, " bps\n   Status:          ");
        if self.above_threshold {
            push_str(&mut s, "PROFITABLE ✓");
        } else if self.is_profitable {
            push_str(&mut s, "PROFITABLE (below threshold)");
        } else {
            push_str(&mut s, "NOT PROFITABLE ✗");
        }
        s
    }
}

} // verus!
