//! The outcome of simulating an arbitrage cycle, and its reports.

use crate::address::{address_text, spec_address_text, Address};
use crate::dex::Dex;
use crate::graph::{copied, dex_path, spec_dex_name, spec_joined, token_path};
use crate::liquidity::{spec_liquidity_amount, LiquidityInfo};
use crate::profit::{spec_format_amount, ProfitBreakdown};
use crate::profit::ProfitCalculator;
use crate::quotes::{spec_final_out, AtomicQuote, PoolQuote};
use crate::simulation::{
    assess_quotes, build_rejection_reason, determine_confidence, empty_breakdown, gas_too_high_reason,
    output_too_low_reason, spec_assess_ok, spec_gas_too_high_reason, spec_output_too_low_reason, spec_assessed, spec_confidence, spec_rejection_reason, QuoteAssessment,
    SimulationConfidence,
};
use crate::text::{push_decimal, push_signed_decimal, push_str, spec_decimal, spec_signed_decimal};
use crate::tokens::spec_symbol;
use crate::uint::{u256_to_decimal, U256};
use vstd::prelude::*;

verus! {

/// The outcome of simulating one cycle.
#[derive(Debug, Clone)]
pub struct SimulationResult {
    pub path: Vec<Address>,
    pub pools: Vec<Address>,
    pub dexes: Vec<Dex>,
    pub input_amount: U256,
    pub output_amount: U256,
    pub gross_profit_bps: i32,
    pub net_profit_bps: i32,
    pub total_dex_fees_bps: u32,
    pub flash_loan_fee_bps: u32,
    pub gas_cost_wei: U256,
    pub gas_units: u64,
    pub is_profitable: bool,
    pub above_threshold: bool,
    pub confidence: SimulationConfidence,
    pub block_number: u64,
    pub profit_breakdown: ProfitBreakdown,
    pub liquidity_info: Vec<LiquidityInfo>,
    pub quotes: AtomicQuote,
    pub rejection_reason: Option<String>,
}

/// The liquidity recorded for a pool whose liquidity could not be read:
/// none at all.
pub fn empty_liquidity_info(pool_address: Address, dex: Dex) -> (r: LiquidityInfo)
    ensures
        r.pool_address == pool_address,
        r.dex == dex,
        r.total_liquidity.value() == 0,
        r.max_trade_05pct_slippage.value() == 0,
        r.max_trade_1pct_slippage.value() == 0,
        r.max_trade_2pct_slippage.value() == 0,
        r.current_tick is None,
        r.active_bin_id is None,
{
    LiquidityInfo {
        pool_address,
        dex,
        total_liquidity: U256::zero(),
        max_trade_05pct_slippage: U256::zero(),
        max_trade_1pct_slippage: U256::zero(),
        max_trade_2pct_slippage: U256::zero(),
        current_tick: None,
        active_bin_id: None,
    }
}

/// `r` is the result of a cycle rejected before (or instead of) a profit
/// computation: nothing gained, confidence failed, the reason given.
pub open spec fn spec_rejected_result(
    r: SimulationResult,
    path: Seq<Address>,
    pools: Seq<Address>,
    dexes: Seq<Dex>,
    input_amount: U256,
    liquidity_info: Seq<LiquidityInfo>,
    reason: Seq<char>,
) -> bool {
    &&& r.path@ == path
    &&& r.pools@ == pools
    &&& r.dexes@ == dexes
    &&& r.input_amount == input_amount
    &&& r.output_amount.value() == 0
    &&& r.gross_profit_bps == 0
    &&& r.net_profit_bps == 0
    &&& r.total_dex_fees_bps == 0
    &&& r.flash_loan_fee_bps == 0
    &&& r.gas_cost_wei.value() == 0
    &&& r.gas_units == 0
    &&& !r.is_profitable
    &&& !r.above_threshold
    &&& r.confidence == SimulationConfidence::Failed
    &&& r.block_number == 0
    &&& r.profit_breakdown.input_amount == input_amount
    &&& r.profit_breakdown.net_profit == 0
    &&& !r.profit_breakdown.is_profitable
    &&& r.liquidity_info@ == liquidity_info
    &&& r.quotes.quotes@.len() == 0
    &&& r.quotes.block_number == 0
    &&& r.quotes.total_gas_estimate == 0
    &&& r.rejection_reason matches Some(s) && s@ == reason
}

/// The result of a cycle rejected before (or instead of) a profit
/// computation.
pub fn create_rejected_result(
    path: &Vec<Address>,
    pools: &Vec<Address>,
    dexes: &Vec<Dex>,
    input_amount: U256,
    liquidity_info: &Vec<LiquidityInfo>,
    reason: String,
) -> (r: SimulationResult)
    ensures
        spec_rejected_result(r, path@, pools@, dexes@, input_amount, liquidity_info@, reason@),
{
    SimulationResult {
        path: copied(path),
        pools: copied(pools),
        dexes: copied(dexes),
        input_amount,
        output_amount: U256::zero(),
        gross_profit_bps: 0,
        net_profit_bps: 0,
        total_dex_fees_bps: 0,
        flash_loan_fee_bps: 0,
        gas_cost_wei: U256::zero(),
        gas_units: 0,
        is_profitable: false,
        above_threshold: false,
        confidence: SimulationConfidence::Failed,
        block_number: 0,
        profit_breakdown: empty_breakdown(input_amount),
        liquidity_info: copied(liquidity_info),
        quotes: AtomicQuote { block_number: 0, timestamp: 0, quotes: Vec::new(), total_gas_estimate: 0 },
        rejection_reason: Some(reason),
    }
}

/// `r` is the result of a cycle whose profit was computed: the
/// breakdown's figures, and the rejection reason when it is below the
/// threshold.
pub open spec fn spec_evaluated_result(
    r: SimulationResult,
    path: Seq<Address>,
    pools: Seq<Address>,
    dexes: Seq<Dex>,
    input_amount: U256,
    breakdown: ProfitBreakdown,
    total_dex_fees_bps: u32,
    gas_units: u64,
    confidence: SimulationConfidence,
    liquidity_info: Seq<LiquidityInfo>,
    quotes: AtomicQuote,
) -> bool {
    &&& r.path@ == path
    &&& r.pools@ == pools
    &&& r.dexes@ == dexes
    &&& r.input_amount == input_amount
    &&& r.output_amount == breakdown.net_output
    &&& r.gross_profit_bps == breakdown.gross_profit_bps
    &&& r.net_profit_bps == breakdown.net_profit_bps
    &&& r.total_dex_fees_bps == total_dex_fees_bps
    &&& r.flash_loan_fee_bps == breakdown.flash_loan_fee_bps
    &&& r.gas_cost_wei == breakdown.gas_cost
    &&& r.gas_units == gas_units
    &&& r.is_profitable == breakdown.is_profitable
    &&& r.above_threshold == breakdown.above_threshold
    &&& r.confidence == confidence
    &&& r.block_number == quotes.block_number
    &&& r.profit_breakdown == breakdown
    &&& r.liquidity_info@ == liquidity_info
    &&& r.quotes.quotes@ == quotes.quotes@
    &&& r.quotes.block_number == quotes.block_number
    &&& r.quotes.timestamp == quotes.timestamp
    &&& r.quotes.total_gas_estimate == quotes.total_gas_estimate
    &&& breakdown.above_threshold ==> r.rejection_reason is None
    &&& !breakdown.above_threshold ==> (r.rejection_reason matches Some(s) && s@ == spec_rejection_reason(breakdown))
}

/// The result of a cycle whose profit was computed.
pub fn evaluated_result(
    path: &Vec<Address>,
    pools: &Vec<Address>,
    dexes: &Vec<Dex>,
    input_amount: U256,
    breakdown: ProfitBreakdown,
    total_dex_fees_bps: u32,
    gas_units: u64,
    confidence: SimulationConfidence,
    liquidity_info: Vec<LiquidityInfo>,
    quotes: AtomicQuote,
) -> (r: SimulationResult)
    ensures
        spec_evaluated_result(
            r,
            path@,
            pools@,
            dexes@,
            input_amount,
            breakdown,
            total_dex_fees_bps,
            gas_units,
            confidence,
            liquidity_info@,
            quotes,
        ),
{
    let rejection_reason = if !breakdown.above_threshold {
        Some(build_rejection_reason(&breakdown))
    } else {
        None
    };
    let block_number = quotes.block_number;
    SimulationResult {
        path: copied(path),
        pools: copied(pools),
        dexes: copied(dexes),
        input_amount,
        output_amount: breakdown.net_output,
        gross_profit_bps: breakdown.gross_profit_bps,
        net_profit_bps: breakdown.net_profit_bps,
        total_dex_fees_bps,
        flash_loan_fee_bps: breakdown.flash_loan_fee_bps,
        gas_cost_wei: breakdown.gas_cost,
        gas_units,
        is_profitable: breakdown.is_profitable,
        above_threshold: breakdown.above_threshold,
        confidence,
        block_number,
        profit_breakdown: breakdown,
        liquidity_info,
        quotes,
        rejection_reason,
    }
}

/// The fee (bps) of each quote.
pub open spec fn spec_quote_fees(quotes: Seq<PoolQuote>) -> Seq<u32> {
    quotes.map_values(|q: PoolQuote| q.fee_bps)
}

/// The output of each quote.
pub open spec fn spec_quote_outputs(quotes: Seq<PoolQuote>) -> Seq<U256> {
    quotes.map_values(|q: PoolQuote| q.amount_out)
}

/// The total liquidity of each pool.
pub open spec fn spec_liquidity_totals(infos: Seq<LiquidityInfo>) -> Seq<U256> {
    infos.map_values(|l: LiquidityInfo| l.total_liquidity)
}

fn quote_fees(quotes: &Vec<PoolQuote>) -> (r: Vec<u32>)
    ensures
        r@ == spec_quote_fees(quotes@),
{
    let mut r: Vec<u32> = Vec::new();
    let mut i: usize = 0;
    while i < quotes.len()
        invariant
            i <= quotes@.len(),
            r@ == spec_quote_fees(quotes@.take(i as int)),
        decreases quotes.len() - i,
    {
        r.push(quotes[i].fee_bps);
        i = i + 1;
        assert(spec_quote_fees(quotes@.take(i as int)) =~= spec_quote_fees(quotes@.take(i - 1)).push(quotes@[i - 1].fee_bps));
    }
    assert(quotes@.take(quotes@.len() as int) =~= quotes@);
    r
}

fn quote_outputs(quotes: &Vec<PoolQuote>) -> (r: Vec<U256>)
    ensures
        r@ == spec_quote_outputs(quotes@),
{
    let mut r: Vec<U256> = Vec::new();
    let mut i: usize = 0;
    while i < quotes.len()
        invariant
            i <= quotes@.len(),
            r@ == spec_quote_outputs(quotes@.take(i as int)),
        decreases quotes.len() - i,
    {
        r.push(quotes[i].amount_out);
        i = i + 1;
        assert(spec_quote_outputs(quotes@.take(i as int)) =~= spec_quote_outputs(quotes@.take(i - 1)).push(
            quotes@[i - 1].amount_out,
        ));
    }
    assert(quotes@.take(quotes@.len() as int) =~= quotes@);
    r
}

fn liquidity_totals(infos: &Vec<LiquidityInfo>) -> (r: Vec<U256>)
    ensures
        r@ == spec_liquidity_totals(infos@),
{
    let mut r: Vec<U256> = Vec::new();
    let mut i: usize = 0;
    while i < infos.len()
        invariant
            i <= infos@.len(),
            r@ == spec_liquidity_totals(infos@.take(i as int)),
        decreases infos.len() - i,
    {
        r.push(infos[i].total_liquidity);
        i = i + 1;
        assert(spec_liquidity_totals(infos@.take(i as int)) =~= spec_liquidity_totals(infos@.take(i - 1)).push(
            infos@[i - 1].total_liquidity,
        ));
    }
    assert(infos@.take(infos@.len() as int) =~= infos@);
    r
}

/// The result of simulating a cycle once its quotes are in: a failed quote,
/// an absurd gas estimate or a too-low output rejects the cycle with its
/// reason; otherwise the profit breakdown decides, with low confidence when
/// a quote gave nothing or a pool shows no liquidity.
pub open spec fn spec_simulation_outcome(
    r: SimulationResult,
    calc: ProfitCalculator,
    path: Seq<Address>,
    pools: Seq<Address>,
    dexes: Seq<Dex>,
    input_amount: U256,
    liquidity_info: Seq<LiquidityInfo>,
    quotes: Result<AtomicQuote, String>,
    gas_price: U256,
) -> bool {
    match quotes {
        Err(e) => spec_rejected_result(r, path, pools, dexes, input_amount, liquidity_info, "Quote failed: "@ + e@),
        Ok(q) => exists|a: QuoteAssessment|
            #[trigger] spec_assessed(
                a,
                calc,
                input_amount,
                spec_final_out(q.quotes@),
                q.total_gas_estimate,
                spec_quote_fees(q.quotes@),
                gas_price,
            ) && match a {
                QuoteAssessment::GasTooHigh { gas_units } => spec_rejected_result(
                    r,
                    path,
                    pools,
                    dexes,
                    input_amount,
                    liquidity_info,
                    spec_gas_too_high_reason(gas_units),
                ),
                QuoteAssessment::OutputTooLow { loss_bps } => spec_rejected_result(
                    r,
                    path,
                    pools,
                    dexes,
                    input_amount,
                    liquidity_info,
                    spec_output_too_low_reason(loss_bps),
                ),
                QuoteAssessment::Evaluated { breakdown, total_dex_fees_bps, gas_units } => spec_evaluated_result(
                    r,
                    path,
                    pools,
                    dexes,
                    input_amount,
                    breakdown,
                    total_dex_fees_bps,
                    gas_units,
                    spec_confidence(spec_quote_outputs(q.quotes@), spec_liquidity_totals(liquidity_info)),
                    liquidity_info,
                    q,
                ),
            },
    }
}

/// Finish the simulation of a cycle from what the quoter gave (or why it
/// failed) and the gas price.
pub fn finish_simulation(
    calc: &ProfitCalculator,
    path: &Vec<Address>,
    pools: &Vec<Address>,
    dexes: &Vec<Dex>,
    input_amount: U256,
    liquidity_info: Vec<LiquidityInfo>,
    quotes: Result<AtomicQuote, String>,
    gas_price: U256,
) -> (r: SimulationResult)
    requires
        quotes matches Ok(q) ==> spec_assess_ok(
            *calc,
            input_amount,
            spec_final_out(q.quotes@),
            q.total_gas_estimate,
            spec_quote_fees(q.quotes@),
            gas_price,
        ),
    ensures
        spec_simulation_outcome(r, *calc, path@, pools@, dexes@, input_amount, liquidity_info@, quotes, gas_price),
{
    match quotes {
        Err(e) => {
            let mut reason = String::new();
            push_str(&mut reason, "Quote failed: ");
            push_str(&mut reason, e.as_str());
            create_rejected_result(path, pools, dexes, input_amount, &liquidity_info, reason)
        },
        Ok(q) => {
            let fees = quote_fees(&q.quotes);
            let gross_output = q.final_amount_out();
            let a = assess_quotes(calc, input_amount, gross_output, q.total_gas_estimate, &fees, gas_price);
            match a {
                QuoteAssessment::GasTooHigh { gas_units } => {
                    let reason = gas_too_high_reason(gas_units);
                    create_rejected_result(path, pools, dexes, input_amount, &liquidity_info, reason)
                },
                QuoteAssessment::OutputTooLow { loss_bps } => {
                    let reason = output_too_low_reason(loss_bps);
                    create_rejected_result(path, pools, dexes, input_amount, &liquidity_info, reason)
                },
                QuoteAssessment::Evaluated { breakdown, total_dex_fees_bps, gas_units } => {
                    let outs = quote_outputs(&q.quotes);
                    let liqs = liquidity_totals(&liquidity_info);
                    let confidence = determine_confidence(&outs, &liqs);
                    evaluated_result(
                        path,
                        pools,
                        dexes,
                        input_amount,
                        breakdown,
                        total_dex_fees_bps,
                        gas_units,
                        confidence,
                        liquidity_info,
                        q,
                    )
                },
            }
        },
    }
}

/// Whatever the quoter gave, the result describes the cycle it was asked
/// about and the input it was given; it carries a rejection reason exactly
/// when it is not above the threshold; a failed result gains nothing and
/// counts no gas; and a failed quote fails the cycle with a reason that
/// starts "Quote failed: ".
pub proof fn law_simulation_outcome(
    r: SimulationResult,
    calc: ProfitCalculator,
    path: Seq<Address>,
    pools: Seq<Address>,
    dexes: Seq<Dex>,
    input_amount: U256,
    liquidity_info: Seq<LiquidityInfo>,
    quotes: Result<AtomicQuote, String>,
    gas_price: U256,
)
    requires
        spec_simulation_outcome(r, calc, path, pools, dexes, input_amount, liquidity_info, quotes, gas_price),
    ensures
        r.path@ == path && r.pools@ == pools && r.dexes@ == dexes,
        r.input_amount == input_amount,
        r.rejection_reason is Some <==> !r.above_threshold,
        r.confidence == SimulationConfidence::Failed ==> !r.is_profitable && r.output_amount.value() == 0
            && r.gas_units == 0,
        quotes is Err ==> r.confidence == SimulationConfidence::Failed && (r.rejection_reason matches Some(
            s,
        ) && s@.take(14) == "Quote failed: "@),
{
    match quotes {
        Err(e) => {
            reveal_strlit("Quote failed: ");
            let s = r.rejection_reason->0;
            assert(s@.take(14) =~= "Quote failed: "@);
        },
        Ok(q) => {
            let a = choose|a: QuoteAssessment|
                #[trigger] spec_assessed(
                    a,
                    calc,
                    input_amount,
                    spec_final_out(q.quotes@),
                    q.total_gas_estimate,
                    spec_quote_fees(q.quotes@),
                    gas_price,
                ) && match a {
                    QuoteAssessment::GasTooHigh { gas_units } => spec_rejected_result(
                        r,
                        path,
                        pools,
                        dexes,
                        input_amount,
                        liquidity_info,
                        spec_gas_too_high_reason(gas_units),
                    ),
                    QuoteAssessment::OutputTooLow { loss_bps } => spec_rejected_result(
                        r,
                        path,
                        pools,
                        dexes,
                        input_amount,
                        liquidity_info,
                        spec_output_too_low_reason(loss_bps),
                    ),
                    QuoteAssessment::Evaluated { breakdown, total_dex_fees_bps, gas_units } => spec_evaluated_result(
                        r,
                        path,
                        pools,
                        dexes,
                        input_amount,
                        breakdown,
                        total_dex_fees_bps,
                        gas_units,
                        spec_confidence(spec_quote_outputs(q.quotes@), spec_liquidity_totals(liquidity_info)),
                        liquidity_info,
                        q,
                    ),
                };
        },
    }
}

/// The name shown for a confidence level.
pub open spec fn spec_confidence_name(c: SimulationConfidence) -> Seq<char> {
    match c {
        SimulationConfidence::High => "HIGH"@,
        SimulationConfidence::Medium => "MEDIUM"@,
        SimulationConfidence::Low => "LOW"@,
        SimulationConfidence::Failed => "FAILED"@,
    }
}

/// An 18-decimal amount of MON with four decimals ("0" for nothing).
pub open spec fn spec_format_mon(amount: int) -> Seq<char> {
    if amount == 0 {
        "0"@
    } else {
        spec_format_amount(amount)
    }
}

/// An amount of MON with four decimals (the amount must fit 128 bits).
pub fn format_mon(amount: U256) -> (r: String)
    requires
        amount.value() <= u128::MAX,
    ensures
        r@ == spec_format_mon(amount.value()),
{
    let a: u128 = match amount.to_u128() {
        Some(v) => v,
        None => 0,
    };
    if a == 0 {
        return "0".to_string();
    }
    crate::profit::format_amount(amount)
}

/// The verdict word of a result.
pub open spec fn spec_result_status(above_threshold: bool, is_profitable: bool) -> Seq<char> {
    if above_threshold {
        "VERIFIED"@
    } else if is_profitable {
        "MARGINAL"@
    } else {
        "REJECTED"@
    }
}

/// The verdict line of a report.
pub open spec fn spec_status_line(above_threshold: bool, is_profitable: bool) -> Seq<char> {
    if above_threshold {
        "STATUS: VERIFIED - PROFITABLE"@
    } else if is_profitable {
        "STATUS: MARGINAL - Below threshold"@
    } else {
        "STATUS: REJECTED - Not profitable"@
    }
}

/// The cycle's tokens by symbol, joined by " -> ".
pub open spec fn spec_token_path(path: Seq<Address>) -> Seq<char> {
    spec_joined(path.map_values(|a: Address| spec_symbol(a)))
}

/// The cycle's DEXes, joined by " -> ".
pub open spec fn spec_dex_path(dexes: Seq<Dex>) -> Seq<char> {
    spec_joined(dexes.map_values(|d: Dex| spec_dex_name(d)))
}

/// "[`status`] `tokens` | Net: `n` bps | Confidence: `level`"
pub open spec fn spec_result_summary(r: SimulationResult) -> Seq<char> {
    "["@ + spec_result_status(r.above_threshold, r.is_profitable) + "] "@ + spec_token_path(r.path@)
        + " | Net: "@ + spec_signed_decimal(r.net_profit_bps as int) + " bps | Confidence: "@
        + spec_confidence_name(r.confidence)
}

/// The text of item `i` of a list, or nothing past its end.
pub open spec fn spec_pool_address_text(pools: Seq<Address>, i: int) -> Seq<char> {
    if i < pools.len() {
        spec_address_text(pools[i])
    } else {
        Seq::empty()
    }
}

/// The DEX name of item `i`, or nothing past the end.
pub open spec fn spec_pool_dex_text(dexes: Seq<Dex>, i: int) -> Seq<char> {
    if i < dexes.len() {
        spec_dex_name(dexes[i])
    } else {
        Seq::empty()
    }
}

/// "`amount` liquidity (max 1% slippage trade: `size`)" of item `i`, or
/// nothing past the end.
pub open spec fn spec_pool_liquidity_text(infos: Seq<LiquidityInfo>, i: int) -> Seq<char> {
    if i < infos.len() {
        spec_liquidity_amount(infos[i].total_liquidity.value()) + " liquidity (max 1% slippage trade: "@
            + spec_decimal((infos[i].max_trade_1pct_slippage.value() / 1_000_000_000_000_000_000) as nat) + ")"@
    } else {
        Seq::empty()
    }
}

/// "Pool `n`: `address` (`dex`)" of hop `i`.
pub open spec fn spec_pool_heading(r: SimulationResult, i: int) -> Seq<char> {
    "\n   Pool "@ + spec_decimal((i + 1) as nat) + ": "@ + spec_pool_address_text(r.pools@, i) + " ("@
        + spec_pool_dex_text(r.dexes@, i) + ")\n"@
}

/// The fee and quote lines of hop `i`.
pub open spec fn spec_pool_quote_lines(q: PoolQuote) -> Seq<char> {
    "     - Fee: "@ + spec_decimal(q.fee_bps as nat) + " bps\n     - Quote: "@
        + spec_decimal(q.amount_in.value() as nat) + " -> "@ + spec_decimal(q.amount_out.value() as nat)
        + "\n"@
}

/// The liquidity line of hop `i`.
pub open spec fn spec_pool_liquidity_line(r: SimulationResult, i: int) -> Seq<char> {
    "     - Liquidity: "@ + spec_pool_liquidity_text(r.liquidity_info@, i) + "\n"@
}

/// The report's section on hop `i`.
pub open spec fn spec_pool_section(r: SimulationResult, i: int) -> Seq<char> {
    spec_pool_heading(r, i) + spec_pool_quote_lines(r.quotes.quotes@[i]) + spec_pool_liquidity_line(r, i)
}

/// The sections of the first `k` hops.
pub open spec fn spec_pool_sections(r: SimulationResult, k: int) -> Seq<char>
    decreases k,
{
    if k <= 0 {
        Seq::empty()
    } else {
        spec_pool_sections(r, k - 1) + spec_pool_section(r, k - 1)
    }
}

/// The full report of a result.
pub open spec fn spec_detailed_report(r: SimulationResult) -> Seq<char> {
    "\n========================================\n SIMULATION RESULT\n========================================\n   Path: "@ + spec_token_path(r.path@) + "\n   DEXes: "@ + spec_dex_path(r.dexes@) + "\n   Block: "@
        + spec_decimal(r.block_number as nat) + "\n   Confidence: "@ + spec_confidence_name(r.confidence) + "\n   "@
        + spec_status_line(r.above_threshold, r.is_profitable) + "\n"@
        + spec_pool_sections(r, r.quotes.quotes@.len() as int)
        + "\n   ─────────────────────────────────────\n   PROFIT BREAKDOWN\n   ─────────────────────────────────────\n   Gross Profit:     "@ + spec_signed_decimal(r.gross_profit_bps as int) + " bps\n   DEX Fees:         -"@
        + spec_decimal(r.total_dex_fees_bps as nat) + " bps\n   Flash Loan Fee:   -"@ + spec_decimal(r.flash_loan_fee_bps as nat)
        + " bps (Neverland)\n   Gas Cost:         ~"@ + spec_format_mon(r.gas_cost_wei.value()) + " MON\n   ─────────────────────────────────────\n   NET PROFIT:       "@
        + spec_signed_decimal(r.net_profit_bps as int) + " bps\n"@
        + (match r.rejection_reason {
            Some(reason) => "\n   Rejection: "@ + reason@ + "\n"@,
            None => Seq::empty(),
        }) + "\n========================================\n"@
}

fn push_pool_heading(s: &mut String, r: &SimulationResult, i: usize)
    ensures
        final(s)@ == old(s)@ + spec_pool_heading(*r, i as int),
{
    push_str(s, "\n   Pool ");
    push_decimal(s, i as u128 + 1);
    push_str(s, ": ");
    if i < r.pools.len() {
        push_str(s, address_text(r.pools[i]).as_str());
    }
    push_str(s, " (");
    if i < r.dexes.len() {
        push_str(s, r.dexes[i].display_name());
    }
    push_str(s, ")\n");
}

fn push_pool_quote_lines(s: &mut String, q: &PoolQuote)
    ensures
        final(s)@ == old(s)@ + spec_pool_quote_lines(*q),
{
    push_str(s, "     - Fee: ");
    push_decimal(s, q.fee_bps as u128);
    push_str(s, " bps\n     - Quote: ");
    push_str(s, u256_to_decimal(q.amount_in).as_str());
    push_str(s, " -> ");
    push_str(s, u256_to_decimal(q.amount_out).as_str());
    push_str(s, "\n");
}

fn push_pool_liquidity_line(s: &mut String, r: &SimulationResult, i: usize)
    ensures
        final(s)@ == old(s)@ + spec_pool_liquidity_line(*r, i as int),
{
    push_str(s, "     - Liquidity: ");
    if i < r.liquidity_info.len() {
        push_str(s, r.liquidity_info[i].description().as_str());
    }
    push_str(s, "\n");
}

/// Appends the report's section on hop `i`.
fn push_pool_section(s: &mut String, r: &SimulationResult, i: usize)
    requires
        i < r.quotes.quotes@.len(),
    ensures
        final(s)@ == old(s)@ + spec_pool_section(*r, i as int),
{
    push_pool_heading(s, r, i);
    push_pool_quote_lines(s, &r.quotes.quotes[i]);
    push_pool_liquidity_line(s, r, i);
}

impl SimulationResult {
    /// "[VERIFIED|MARGINAL|REJECTED] `tokens` | Net: `n` bps | Confidence: `level`"
    pub fn summary(&self) -> (r: String)
        ensures
            r@ == spec_result_summary(*self),
    {
        let mut s = String::new();
        push_str(&mut s, "[");
        if self.above_threshold {
            push_str(&mut s, "VERIFIED");
        } else if self.is_profitable {
            push_str(&mut s, "MARGINAL");
        } else {
            push_str(&mut s, "REJECTED");
        }
        push_str(&mut s, "] ");
        let t = token_path(&self.path);
        push_str(&mut s, t.as_str());
        push_str(&mut s, " | Net: ");
        push_signed_decimal(&mut s, self.net_profit_bps as i64);
        push_str(&mut s, " bps | Confidence: ");
        push_str(&mut s, self.confidence.display_name());
        s
    }

    /// The tokens of the cycle by symbol.
    pub fn token_path(&self) -> (r: String)
        ensures
            r@ == spec_token_path(self.path@),
    {
        token_path(&self.path)
    }

    /// The DEXes of the cycle.
    pub fn dex_path(&self) -> (r: String)
        ensures
            r@ == spec_dex_path(self.dexes@),
    {
        dex_path(&self.dexes)
    }

    /// The full report: path, DEXes, block and confidence, one section per
    /// hop, the profit breakdown and the rejection reason if any.
    #[verifier::spinoff_prover]
    #[verifier::rlimit(40)]
    pub fn detailed_report(&self) -> (r: String)
        requires
            self.gas_cost_wei.value() <= u128::MAX,
        ensures
            r@ == spec_detailed_report(*self),
    {
        let mut s = String::new();
        push_str(&mut s, "\n========================================\n SIMULATION RESULT\n========================================\n   Path: ");
        push_str(&mut s, token_path(&self.path).as_str());
        push_str(&mut s, "\n   DEXes: ");
        push_str(&mut s, dex_path(&self.dexes).as_str());
        push_str(&mut s, "\n   Block: ");
        push_decimal(&mut s, self.block_number as u128);
        push_str(&mut s, "\n   Confidence: ");
        push_str(&mut s, self.confidence.display_name());
        push_str(&mut s, "\n   ");
        if self.above_threshold {
            push_str(&mut s, "STATUS: VERIFIED - PROFITABLE");
        } else if self.is_profitable {
            push_str(&mut s, "STATUS: MARGINAL - Below threshold");
        } else {
            push_str(&mut s, "STATUS: REJECTED - Not profitable");
        }
        push_str(&mut s, "\n");
        let ghost head = s@;
        let n = self.quotes.quotes.len();
        let mut i: usize = 0;
        while i < n
            invariant
                n == self.quotes.quotes@.len(),
                i <= n,
                s@ == head + spec_pool_sections(*self, i as int),
            decreases n - i,
        {
            push_pool_section(&mut s, self, i);
            proof {
                assert(spec_pool_sections(*self, i + 1) == spec_pool_sections(*self, i as int)
                    + spec_pool_section(*self, i as int));
            }
            i = i + 1;
        }
        push_str(&mut s, "\n   ─────────────────────────────────────\n   PROFIT BREAKDOWN\n   ─────────────────────────────────────\n   Gross Profit:     ");
        push_signed_decimal(&mut s, self.gross_profit_bps as i64);
        push_str(&mut s, " bps\n   DEX Fees:         -");
        push_decimal(&mut s, self.total_dex_fees_bps as u128);
        push_str(&mut s, " bps\n   Flash Loan Fee:   -");
        push_decimal(&mut s, self.flash_loan_fee_bps as u128);
        push_str(&mut s, " bps (Neverland)\n   Gas Cost:         ~");
        push_str(&mut s, format_mon(self.gas_cost_wei).as_str());
        push_str(&mut s, " MON\n   ─────────────────────────────────────\n   NET PROFIT:       ");
        push_signed_decimal(&mut s, self.net_profit_bps as i64);
        push_str(&mut s, " bps\n");
        match &self.rejection_reason {
            Some(reason) => {
                push_str(&mut s, "\n   Rejection: ");
                push_str(&mut s, reason.as_str());
                push_str(&mut s, "\n");
            },
            None => {},
        }
        push_str(&mut s, "\n========================================\n");
        s
    }
}

} // verus!
