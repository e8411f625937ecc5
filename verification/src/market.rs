//! Venues and routes reported by outside price sources.

use vstd::prelude::*;

verus! {

/// Where a token's price was seen.
#[derive(Debug, Clone, Copy, PartialEq, Eq, Structural)]
pub enum Venue {
    Uniswap,
    Nadfun,
}

/// One step of a Monorail route.
#[derive(Debug, Clone)]
pub struct RouteStep {
    pub dex: String,
    pub pool: String,
}

} // verus!
