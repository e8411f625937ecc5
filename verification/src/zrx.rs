//! Answers of the 0x swap API: the price response and the judgement on it.

use vstd::prelude::*;

verus! {

/// One liquidity source of a 0x route.
#[derive(Debug, Clone)]
pub struct Fill {
    pub source: String,
    pub proportion_bps: String,
}

/// How 0x routes a swap.
#[derive(Debug, Clone)]
pub struct RouteInfo {
    pub fills: Vec<Fill>,
}

/// The 0x price answer; amounts are decimal strings.
#[derive(Debug, Clone)]
pub struct PriceResponse {
    pub buy_amount: String,
    pub sell_amount: String,
    pub buy_token: String,
    pub sell_token: String,
    pub liquidity_available: bool,
    pub gas: String,
    pub gas_price: String,
    pub route: Option<RouteInfo>,
}

/// Why a 0x answer is refused.
#[derive(Debug, Clone, Copy, PartialEq, Eq, Structural)]
pub enum ZrxError {
    /// "No liquidity available for this pair".
    NoLiquidity,
}

impl ZrxError {
    /// The message of the error.
    pub fn message(&self) -> (r: &'static str)
        ensures
            r@ == "No liquidity available for this pair"@,
    {
        "No liquidity available for this pair"
    }
}

/// A price answer is usable only when 0x reports liquidity for the pair.
pub fn check_liquidity(price: PriceResponse) -> (r: Result<PriceResponse, ZrxError>)
    ensures
        price.liquidity_available ==> (r matches Ok(p) && p == price),
        !price.liquidity_available ==> r == Err::<PriceResponse, ZrxError>(ZrxError::NoLiquidity),
{
    if !price.liquidity_available {
        return Err(ZrxError::NoLiquidity);
    }
    Ok(price)
}

/// The liquidity sources 0x routes through, in route order (none without
/// a route).
pub fn route_sources(price: &PriceResponse) -> (r: Vec<String>)
    ensures
        price.route is None ==> r@.len() == 0,
        price.route matches Some(route) ==> r@.len() == route.fills@.len() && forall|i: int|
            0 <= i < r@.len() ==> (#[trigger] r@[i])@ == route.fills@[i].source@,
{
    let mut r: Vec<String> = Vec::new();
    match &price.route {
        Some(route) => {
            let mut i: usize = 0;
            while i < route.fills.len()
                invariant
                    i <= route.fills@.len(),
                    r@.len() == i,
                    forall|k: int| 0 <= k < i ==> (#[trigger] r@[k])@ == route.fills@[k].source@,
                decreases route.fills.len() - i,
            {
                r.push(route.fills[i].source.clone());
                i = i + 1;
            }
        },
        None => {},
    }
    r
}

} // verus!
