//! Pool fee tiers: converting the raw values that pool contracts report
//! into basis points.

use crate::address::Address;
use crate::dex::Dex;
use crate::text::{push_decimal, push_padded_decimal, push_str, spec_decimal, spec_padded_decimal};
use std::sync::Arc;
use vstd::prelude::*;

verus! {

/// A pool's fee as read from the chain.
#[derive(Debug, Clone, Copy, PartialEq, Eq, Structural)]
pub struct PoolFeeInfo {
    pub pool_address: Address,
    pub dex_type: Dex,
    /// Fee in basis points (30 = 0.30%).
    pub fee_bps: u32,
    /// Whether the fee can change from swap to swap.
    pub is_dynamic: bool,
    /// The fee as the contract reports it.
    pub raw_fee: u32,
}

/// Which query gives the fee of a pool.
#[derive(Debug, Clone, Copy, PartialEq, Eq, Structural)]
pub enum FeeQuery {
    /// `fee()` of a Uniswap V3 style pool, reported for this DEX.
    V3Fee { dex: Dex },
    /// `getSwapOut(amount_in, true)` of an LFJ pair.
    LfjSwapOut { amount_in: u128 },
    /// `getStaticFeeParameters()` of an LFJ pair.
    LfjStaticFee,
    /// No query: the fee is known without one.
    Known { info: PoolFeeInfo },
}

/// Reads pool fees through a chain provider.
pub struct FeeValidator<P> {
    provider: Arc<P>,
}

/// The fee in bps of a raw fee of a given DEX: V3-style DEXes (and Kuru)
/// report hundredths of a bip, LFJ fees are already in bps.
pub open spec fn spec_raw_fee_to_bps(raw_fee: u32, dex: Dex) -> u32 {
    match dex {
        Dex::LFJ => raw_fee,
        _ => raw_fee / 100,
    }
}

/// "`fee` bps (`fee/100`.`fee%100`%)".
pub open spec fn spec_fee_description(fee_bps: u32) -> Seq<char> {
    spec_decimal(fee_bps as nat) + " bps ("@ + spec_decimal((fee_bps / 100) as nat) + "."@
        + spec_padded_decimal((fee_bps % 100) as nat, 2) + "%)"@
}

/// The effective fee (bps) of an LFJ swap that took `fee` out of
/// `amount_in`; both are cut to 64 bits first.
pub open spec fn spec_lfj_effective_fee_bps(fee: u128, amount_in: u128) -> u32 {
    if amount_in > 0 {
        (((fee as u64) * 10000) / ((amount_in as u64) as int)) as u32
    } else {
        0
    }
}

/// The inputs on which the effective LFJ fee is computed without a panic.
pub open spec fn spec_lfj_fee_ok(fee: u128, amount_in: u128) -> bool {
    &&& amount_in > 0 ==> (fee as u64) * 10000 <= u64::MAX
    &&& amount_in > 0 ==> (amount_in as u64) != 0
    &&& spec_lfj_effective_fee_bps(fee, amount_in) * 100 <= u32::MAX
}

impl<P> FeeValidator<P> {
    pub fn new(provider: P) -> (r: Self)
        ensures
            *r.provider() == provider,
    {
        FeeValidator { provider: Arc::new(provider) }
    }

    /// The provider that queries go through.
    pub closed spec fn provider(&self) -> &P {
        &*self.provider
    }

    /// The fee in basis points of a raw fee as a pool reports it.
    pub fn convert_raw_fee_to_bps(raw_fee: u32, dex_type: Dex) -> (r: u32)
        ensures
            r == spec_raw_fee_to_bps(raw_fee, dex_type),
    {
        match dex_type {
            Dex::UniswapV3 | Dex::PancakeSwapV3 | Dex::UniswapV4 => raw_fee / 100,
            Dex::LFJ => raw_fee,
            Dex::Kuru => raw_fee / 100,
        }
    }

    /// A fee for logging, such as "30 bps (0.30%)".
    pub fn fee_description(fee_bps: u32) -> (r: String)
        ensures
            r@ == spec_fee_description(fee_bps),
    {
        let mut s = String::new();
        push_decimal(&mut s, fee_bps as u128);
        push_str(&mut s, " bps (");
        push_decimal(&mut s, (fee_bps / 100) as u128);
        push_str(&mut s, ".");
        push_padded_decimal(&mut s, (fee_bps % 100) as u128, 2);
        push_str(&mut s, "%)");
        s
    }
}

/// The fee of a V3-style pool whose `fee()` returned `raw_fee` (hundredths
/// of a bip).
pub fn v3_fee_info(pool_address: Address, dex: Dex, raw_fee: u32) -> (r: PoolFeeInfo)
    ensures
        r == (PoolFeeInfo {
            pool_address,
            dex_type: dex,
            fee_bps: raw_fee / 100,
            is_dynamic: false,
            raw_fee,
        }),
{
    PoolFeeInfo { pool_address, dex_type: dex, fee_bps: raw_fee / 100, is_dynamic: false, raw_fee }
}

/// The fee of an LFJ pair whose `getSwapOut` charged `fee` on `amount_in`.
pub fn lfj_swap_fee_info(pool_address: Address, amount_in: u128, fee: u128) -> (r: PoolFeeInfo)
    requires
        spec_lfj_fee_ok(fee, amount_in),
    ensures
        r == (PoolFeeInfo {
            pool_address,
            dex_type: Dex::LFJ,
            fee_bps: spec_lfj_effective_fee_bps(fee, amount_in),
            is_dynamic: true,
            raw_fee: (spec_lfj_effective_fee_bps(fee, amount_in) * 100) as u32,
        }),
{
    let effective_fee_bps: u32 = if amount_in > 0 {
        ((fee as u64 * 10000) / (amount_in as u64)) as u32
    } else {
        0
    };
    PoolFeeInfo {
        pool_address,
        dex_type: Dex::LFJ,
        fee_bps: effective_fee_bps,
        is_dynamic: true,
        raw_fee: effective_fee_bps * 100,
    }
}

/// The fee of an LFJ pair from its static `baseFactor`.
pub fn lfj_base_fee_info(pool_address: Address, base_factor: u16) -> (r: PoolFeeInfo)
    ensures
        r == (PoolFeeInfo {
            pool_address,
            dex_type: Dex::LFJ,
            fee_bps: (base_factor / 100) as u32,
            is_dynamic: true,
            raw_fee: base_factor as u32,
        }),
{
    let base = base_factor as u32;
    PoolFeeInfo { pool_address, dex_type: Dex::LFJ, fee_bps: base / 100, is_dynamic: true, raw_fee: base }
}

/// Which query gives the fee of a pool: V3-style pools are asked for
/// `fee()`, LFJ pairs simulate the trade when an amount is given and read
/// the static fee otherwise, and Uniswap V4 and Kuru get a 30 bps default
/// (dynamic for V4).
pub fn plan_pool_fee_query(pool_address: Address, dex_type: Dex, amount_in: Option<u128>) -> (r:
    FeeQuery)
    ensures
        dex_type == Dex::UniswapV3 ==> r == (FeeQuery::V3Fee { dex: Dex::UniswapV3 }),
        dex_type == Dex::PancakeSwapV3 ==> r == (FeeQuery::V3Fee { dex: Dex::PancakeSwapV3 }),
        dex_type == Dex::LFJ ==> r == match amount_in {
            Some(a) => FeeQuery::LfjSwapOut { amount_in: a },
            None => FeeQuery::LfjStaticFee,
        },
        dex_type == Dex::UniswapV4 ==> r == (FeeQuery::Known {
            info: PoolFeeInfo {
                pool_address,
                dex_type: Dex::UniswapV4,
                fee_bps: 30,
                is_dynamic: true,
                raw_fee: 3000,
            },
        }),
        dex_type == Dex::Kuru ==> r == (FeeQuery::Known {
            info: PoolFeeInfo {
                pool_address,
                dex_type: Dex::Kuru,
                fee_bps: 30,
                is_dynamic: false,
                raw_fee: 3000,
            },
        }),
{
    match dex_type {
        Dex::UniswapV3 => FeeQuery::V3Fee { dex: Dex::UniswapV3 },
        Dex::PancakeSwapV3 => FeeQuery::V3Fee { dex: Dex::PancakeSwapV3 },
        Dex::LFJ => match amount_in {
            Some(a) => FeeQuery::LfjSwapOut { amount_in: a },
            None => FeeQuery::LfjStaticFee,
        },
        Dex::UniswapV4 => FeeQuery::Known {
            info: PoolFeeInfo {
                pool_address,
                dex_type: Dex::UniswapV4,
                fee_bps: 30,
                is_dynamic: true,
                raw_fee: 3000,
            },
        },
        Dex::Kuru => FeeQuery::Known {
            info: PoolFeeInfo {
                pool_address,
                dex_type: Dex::Kuru,
                fee_bps: 30,
                is_dynamic: false,
                raw_fee: 3000,
            },
        },
    }
}

} // verus!
