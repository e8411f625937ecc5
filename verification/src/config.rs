//! Pool and router kinds, gas limits and the fee tier rules of Uniswap V4.

use crate::text::{push_decimal, push_str, spec_decimal};
use vstd::prelude::*;

verus! {

/// How a configured pool is priced.
#[derive(Debug, Clone, Copy, PartialEq, Eq, Structural)]
pub enum PoolType {
    UniswapV3,
    PancakeV3,
    /// LFJ (Trader Joe style liquidity book).
    LiquidityBook,
    /// V3-style pool read through `slot0()`.
    MondayTrade,
}

/// The kind of router a swap goes through.
#[derive(Debug, Clone, Copy, PartialEq, Eq, Structural)]
pub enum RouterType {
    UniswapV3,
    PancakeV3,
    LfjLB,
    MondayTrade,
}

/// The routers the arbitrage contract knows, by the id it takes.
#[derive(Debug, Clone, Copy, PartialEq, Eq, Structural)]
pub enum ContractRouter {
    Uniswap,
    PancakeSwap,
    MondayTrade,
    LFJ,
}

/// The contract's id of a router.
pub open spec fn spec_router_id(r: ContractRouter) -> u8 {
    match r {
        ContractRouter::Uniswap => 0,
        ContractRouter::PancakeSwap => 1,
        ContractRouter::MondayTrade => 2,
        ContractRouter::LFJ => 3,
    }
}

/// The contract router that serves a router type.
pub open spec fn spec_contract_router(rt: RouterType) -> ContractRouter {
    match rt {
        RouterType::UniswapV3 => ContractRouter::Uniswap,
        RouterType::PancakeV3 => ContractRouter::PancakeSwap,
        RouterType::MondayTrade => ContractRouter::MondayTrade,
        RouterType::LfjLB => ContractRouter::LFJ,
    }
}

impl ContractRouter {
    /// The id the arbitrage contract takes for this router.
    pub fn id(&self) -> (r: u8)
        ensures
            r == spec_router_id(*self),
    {
        match self {
            ContractRouter::Uniswap => 0,
            ContractRouter::PancakeSwap => 1,
            ContractRouter::MondayTrade => 2,
            ContractRouter::LFJ => 3,
        }
    }
}

impl From<RouterType> for ContractRouter {
    fn from(rt: RouterType) -> (r: Self) {
        match rt {
            RouterType::UniswapV3 => ContractRouter::Uniswap,
            RouterType::PancakeV3 => ContractRouter::PancakeSwap,
            RouterType::MondayTrade => ContractRouter::MondayTrade,
            RouterType::LfjLB => ContractRouter::LFJ,
        }
    }
}

impl vstd::std_specs::convert::FromSpecImpl<RouterType> for ContractRouter {
    open spec fn obeys_from_spec() -> bool {
        true
    }

    open spec fn from_spec(v: RouterType) -> Self {
        spec_contract_router(v)
    }
}

/// Which way a swap goes between USDC and WMON.
#[derive(Debug, Clone, Copy, PartialEq, Eq, Structural)]
pub enum SwapDirection {
    /// USDC to WMON.
    Buy,
    /// WMON to USDC.
    Sell,
}

/// Gas limit used when estimation fails, for a single-call router.
pub const FALLBACK_GAS_LIMIT_SIMPLE: u64 = 250_000;

/// Gas limit used when estimation fails, for a router that wraps its
/// swap in a multicall or routes a path.
pub const FALLBACK_GAS_LIMIT_COMPLEX: u64 = 400_000;

/// Buffer added to an estimated gas limit, in percent: kept tight, as
/// Monad charges the whole gas limit.
pub const GAS_BUFFER_PERCENT: u64 = 10;

/// Buffer added to an estimated gas limit of an atomic arbitrage, in percent.
pub const ATOMIC_GAS_BUFFER_PERCENT: u64 = 12;

/// Fixed gas limit of an atomic arbitrage sent without estimation.
pub const TURBO_GAS_LIMIT: u64 = 500_000;

/// Margin added to the fixed gas limit.
pub const TURBO_GAS_BUFFER: u64 = 50_000;

/// The largest gas a 0x quote may ask for.
pub const MAX_0X_GAS: u64 = 800_000;

/// The largest gas of a 0x swap and a Uniswap swap together.
pub const MAX_TOTAL_GAS: u64 = 1_000_000;

/// Gas of the Uniswap leg of a 0x arbitrage.
pub const UNISWAP_LEG_GAS: u64 = 400_000;

/// Flag bit of a Uniswap V4 fee that marks it as dynamic.
pub const DYNAMIC_FEE_FLAG: u32 = 0x800000;

/// The gas limit used for a router when estimation fails.
pub open spec fn spec_fallback_gas_limit(rt: RouterType) -> u64 {
    match rt {
        RouterType::UniswapV3 => FALLBACK_GAS_LIMIT_SIMPLE,
        RouterType::PancakeV3 => FALLBACK_GAS_LIMIT_COMPLEX,
        RouterType::LfjLB => FALLBACK_GAS_LIMIT_COMPLEX,
        RouterType::MondayTrade => FALLBACK_GAS_LIMIT_SIMPLE,
    }
}

/// Fallback gas limit of a router (only used if estimation fails):
/// PancakeSwap (multicall wrapper) and LFJ (path routing) need more.
pub fn get_fallback_gas_limit(router_type: RouterType) -> (r: u64)
    ensures
        r == spec_fallback_gas_limit(router_type),
{
    match router_type {
        RouterType::UniswapV3 => FALLBACK_GAS_LIMIT_SIMPLE,
        RouterType::PancakeV3 => FALLBACK_GAS_LIMIT_COMPLEX,
        RouterType::LfjLB => FALLBACK_GAS_LIMIT_COMPLEX,
        RouterType::MondayTrade => FALLBACK_GAS_LIMIT_SIMPLE,
    }
}

/// An estimated gas limit with a buffer of `percent` on top:
/// `estimated * (100 + percent) / 100`.
pub fn gas_with_buffer(estimated: u64, percent: u64) -> (r: u64)
    requires
        percent <= u64::MAX - 100,
        estimated * (100 + percent) <= u64::MAX,
    ensures
        r == estimated * (100 + percent) / 100,
{
    estimated * (100 + percent) / 100
}

/// The gas limit of an atomic arbitrage sent without estimation.
pub fn turbo_gas_limit() -> (r: u64)
    ensures
        r == TURBO_GAS_LIMIT + TURBO_GAS_BUFFER,
{
    TURBO_GAS_LIMIT + TURBO_GAS_BUFFER
}

/// "0x gas too high: `gas` > `limit` limit".
pub open spec fn spec_0x_gas_error(quoted_gas: u64) -> Seq<char> {
    "0x gas too high: "@ + spec_decimal(quoted_gas as nat) + " > "@ + spec_decimal(
        MAX_0X_GAS as nat,
    ) + " limit"@
}

/// "Total gas too high: `total` > `limit` limit (0x: `gas`, Uniswap: `leg`)".
pub open spec fn spec_total_gas_error(quoted_gas: u64) -> Seq<char> {
    "Total gas too high: "@ + spec_decimal((quoted_gas + UNISWAP_LEG_GAS) as nat) + " > "@
        + spec_decimal(MAX_TOTAL_GAS as nat) + " limit (0x: "@ + spec_decimal(quoted_gas as nat)
        + ", Uniswap: "@ + spec_decimal(UNISWAP_LEG_GAS as nat) + ")"@
}

/// Check the gas of a 0x quote against the limits: the quote alone, then
/// the quote with the Uniswap leg.
pub fn validate_0x_gas(quoted_gas: u64) -> (r: Result<(), String>)
    ensures
        quoted_gas > MAX_0X_GAS ==> (r matches Err(e) && e@ == spec_0x_gas_error(quoted_gas)),
        quoted_gas <= MAX_0X_GAS && quoted_gas + UNISWAP_LEG_GAS > MAX_TOTAL_GAS ==> (r matches Err(
            e,
        ) && e@ == spec_total_gas_error(quoted_gas)),
        quoted_gas <= MAX_0X_GAS && quoted_gas + UNISWAP_LEG_GAS <= MAX_TOTAL_GAS ==> r is Ok,
{
    if quoted_gas > MAX_0X_GAS {
        let mut s = String::new();
        push_str(&mut s, "0x gas too high: ");
        push_decimal(&mut s, quoted_gas as u128);
        push_str(&mut s, " > ");
        push_decimal(&mut s, MAX_0X_GAS as u128);
        push_str(&mut s, " limit");
        return Err(s);
    }
    let total_gas = quoted_gas + UNISWAP_LEG_GAS;
    if total_gas > MAX_TOTAL_GAS {
        let mut s = String::new();
        push_str(&mut s, "Total gas too high: ");
        push_decimal(&mut s, total_gas as u128);
        push_str(&mut s, " > ");
        push_decimal(&mut s, MAX_TOTAL_GAS as u128);
        push_str(&mut s, " limit (0x: ");
        push_decimal(&mut s, quoted_gas as u128);
        push_str(&mut s, ", Uniswap: ");
        push_decimal(&mut s, UNISWAP_LEG_GAS as u128);
        push_str(&mut s, ")");
        return Err(s);
    }
    Ok(())
}

/// Bit 23 of a fee marks a Uniswap V4 dynamic fee.
pub open spec fn spec_is_dynamic_fee(fee: u32) -> bool {
    (fee / 0x800000) % 2 == 1
}

/// Whether a Uniswap V4 fee has the dynamic fee flag set.
pub fn is_dynamic_fee(fee: u32) -> (r: bool)
    ensures
        r == spec_is_dynamic_fee(fee),
{
    let r = fee & DYNAMIC_FEE_FLAG != 0;
    assert(((fee & 0x800000u32) != 0) == ((fee / 0x800000u32) % 2 == 1)) by (bit_vector);
    r
}

/// The tick spacings that are usual for the common V4 fee tiers (other
/// tiers take any spacing).
pub open spec fn spec_valid_fee_tick_combo(fee: u32, tick_spacing: i32) -> bool {
    if fee == 100 {
        tick_spacing == 1 || tick_spacing == 10
    } else if fee == 500 {
        tick_spacing == 10 || tick_spacing == 1
    } else if fee == 3000 {
        tick_spacing == 60 || tick_spacing == 10
    } else if fee == 10000 {
        tick_spacing == 200 || tick_spacing == 60
    } else if fee == 100000 {
        tick_spacing == 200
    } else {
        true
    }
}

/// Whether a fee tier and tick spacing form a common V4 pool
/// configuration, to skip queries for unlikely pools.
pub fn is_valid_fee_tick_combo(fee: u32, tick_spacing: i32) -> (r: bool)
    ensures
        r == spec_valid_fee_tick_combo(fee, tick_spacing),
{
    match fee {
        100 => tick_spacing == 1 || tick_spacing == 10,
        500 => tick_spacing == 10 || tick_spacing == 1,
        3000 => tick_spacing == 60 || tick_spacing == 10,
        10000 => tick_spacing == 200 || tick_spacing == 60,
        100000 => tick_spacing == 200,
        _ => true,
    }
}

} // verus!
