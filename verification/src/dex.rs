//! The exchanges the bot trades on.

use crate::address::Address;
use crate::uint::{u256_lt, U256};
use vstd::prelude::*;

verus! {

/// A supported DEX.
#[derive(Debug, Clone, Copy, PartialEq, Eq, Hash, Structural)]
pub enum Dex {
    UniswapV3,
    UniswapV4,
    PancakeSwapV3,
    LFJ,
    Kuru,
}

impl Dex {
    /// The name shown for the DEX.
    pub fn display_name(&self) -> (r: &'static str)
        ensures
            *self == Dex::UniswapV3 ==> r@ == "Uniswap V3"@,
            *self == Dex::UniswapV4 ==> r@ == "Uniswap V4"@,
            *self == Dex::PancakeSwapV3 ==> r@ == "PancakeSwap V3"@,
            *self == Dex::LFJ ==> r@ == "LFJ"@,
            *self == Dex::Kuru ==> r@ == "Kuru"@,
    {
        match self {
            Dex::UniswapV3 => "Uniswap V3",
            Dex::UniswapV4 => "Uniswap V4",
            Dex::PancakeSwapV3 => "PancakeSwap V3",
            Dex::LFJ => "LFJ",
            Dex::Kuru => "Kuru",
        }
    }
}

/// A liquidity pool on a DEX.
#[derive(Debug, Clone, Copy, PartialEq, Eq)]
pub struct Pool {
    pub address: Address,
    pub token0: Address,
    pub token1: Address,
    /// Fee in hundredths of a bip.
    pub fee: u32,
    pub dex: Dex,
    /// Current liquidity.
    pub liquidity: U256,
    /// Current price as sqrt(price) * 2^96.
    pub sqrt_price_x96: U256,
    pub decimals0: u8,
    pub decimals1: u8,
}

impl Pool {
    /// Whether the pool holds at least `min_liquidity`.
    pub fn has_sufficient_liquidity(&self, min_liquidity: u128) -> (r: bool)
        ensures
            r == (self.liquidity.value() >= min_liquidity),
    {
        !u256_lt(self.liquidity, U256::from_u128(min_liquidity))
    }
}

} // verus!
