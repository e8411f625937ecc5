//! The tokens the bot knows: their addresses, symbols and decimals.

use crate::address::Address;
use vstd::prelude::*;

verus! {
/// The WMON token.
pub open spec fn spec_wmon() -> Address {
    Address { high: 0x3bd359c1, mid: 0x119da7da1d913d1c, low: 0x4d2b7c461115433a }
}

/// The WMON token.
pub fn wmon_token() -> (r: Address)
    ensures
        r == spec_wmon(),
{
    Address { high: 0x3bd359c1, mid: 0x119da7da1d913d1c, low: 0x4d2b7c461115433a }
}
/// The USDC token.
pub open spec fn spec_usdc() -> Address {
    Address { high: 0x754704bc, mid: 0x059f8c67012fed69, low: 0xbc8a327a5aafb603 }
}

/// The USDC token.
pub fn usdc_token() -> (r: Address)
    ensures
        r == spec_usdc(),
{
    Address { high: 0x754704bc, mid: 0x059f8c67012fed69, low: 0xbc8a327a5aafb603 }
}
/// The USDT token.
pub open spec fn spec_usdt() -> Address {
    Address { high: 0xe7cd86e1, mid: 0x3ac4309349f30b34, low: 0x35a9d337750fc82d }
}

/// The USDT token.
pub fn usdt_token() -> (r: Address)
    ensures
        r == spec_usdt(),
{
    Address { high: 0xe7cd86e1, mid: 0x3ac4309349f30b34, low: 0x35a9d337750fc82d }
}
/// The WETH token.
pub open spec fn spec_weth() -> Address {
    Address { high: 0xee8c0e9f, mid: 0x1bffb4eb878d8f15, low: 0xf368a02a35481242 }
}

/// The WETH token.
pub fn weth_token() -> (r: Address)
    ensures
        r == spec_weth(),
{
    Address { high: 0xee8c0e9f, mid: 0x1bffb4eb878d8f15, low: 0xf368a02a35481242 }
}
/// The WBTC token.
pub open spec fn spec_wbtc() -> Address {
    Address { high: 0x0555e30d, mid: 0xa8f98308edb960aa, low: 0x94c0db47230d2b9c }
}

/// The WBTC token.
pub fn wbtc_token() -> (r: Address)
    ensures
        r == spec_wbtc(),
{
    Address { high: 0x0555e30d, mid: 0xa8f98308edb960aa, low: 0x94c0db47230d2b9c }
}
/// The sMON token.
pub open spec fn spec_smon() -> Address {
    Address { high: 0xa3227c59, mid: 0x69757783154c60bf, low: 0x0bc1944180ed81b9 }
}

/// The sMON token.
pub fn smon_token() -> (r: Address)
    ensures
        r == spec_smon(),
{
    Address { high: 0xa3227c59, mid: 0x69757783154c60bf, low: 0x0bc1944180ed81b9 }
}
/// The gMON token.
pub open spec fn spec_gmon() -> Address {
    Address { high: 0x8498312a, mid: 0x6b3cbd158bf0c93a, low: 0xbdcf29e6e4f55081 }
}

/// The gMON token.
pub fn gmon_token() -> (r: Address)
    ensures
        r == spec_gmon(),
{
    Address { high: 0x8498312a, mid: 0x6b3cbd158bf0c93a, low: 0xbdcf29e6e4f55081 }
}
/// The symbol of a known token, "???" for any other.
pub open spec fn spec_symbol(addr: Address) -> Seq<char> {
    if addr == spec_wmon() {
        "WMON"@
    } else if addr == spec_usdc() {
        "USDC"@
    } else if addr == spec_usdt() {
        "USDT"@
    } else if addr == spec_weth() {
        "WETH"@
    } else if addr == spec_wbtc() {
        "WBTC"@
    } else if addr == spec_smon() {
        "sMON"@
    } else if addr == spec_gmon() {
        "gMON"@
    } else {
        "???"@
    }
}

/// The symbol of a token, "???" when unknown.
pub fn symbol(addr: Address) -> (r: &'static str)
    ensures
        r@ == spec_symbol(addr),
{
    if addr == wmon_token() {
        "WMON"
    } else if addr == usdc_token() {
        "USDC"
    } else if addr == usdt_token() {
        "USDT"
    } else if addr == weth_token() {
        "WETH"
    } else if addr == wbtc_token() {
        "WBTC"
    } else if addr == smon_token() {
        "sMON"
    } else if addr == gmon_token() {
        "gMON"
    } else {
        "???"
    }
}

/// The decimals of a known token: 6 for the dollar tokens, 8 for WBTC,
/// 18 for the others and for any unknown token.
pub open spec fn spec_decimals(addr: Address) -> u8 {
    if addr == spec_usdc() || addr == spec_usdt() {
        6
    } else if addr == spec_wbtc() {
        8
    } else {
        18
    }
}

/// The decimals of a token (18 when unknown).
pub fn decimals(addr: Address) -> (r: u8)
    ensures
        r == spec_decimals(addr),
{
    if addr == usdc_token() || addr == usdt_token() {
        6
    } else if addr == wbtc_token() {
        8
    } else {
        18
    }
}

/// The tokens arbitrage cycles start from: WMON, USDC, USDT, WETH.
pub fn base_tokens() -> (r: Vec<Address>)
    ensures
        r@ == seq![spec_wmon(), spec_usdc(), spec_usdt(), spec_weth()],
{
    let mut r: Vec<Address> = Vec::new();
    r.push(wmon_token());
    r.push(usdc_token());
    r.push(usdt_token());
    r.push(weth_token());
    r
}

} // verus!
