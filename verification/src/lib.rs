//! Verified core of a Monad DEX arbitrage bot: gas caching, fee and profit
//! arithmetic, quotes and liquidity, spread tracking and filtering, cycle
//! search, block lifecycle tracking, and the swap calls of each router.

pub mod gas_cache;
pub mod uint;
pub mod profit;
pub mod text;
pub mod address;
pub mod dex;
pub mod fees;
pub mod spread_display;
pub mod graph;
pub mod simulation;
pub mod config;
pub mod nonce;
pub mod mev;
pub mod liquidity;
pub mod quotes;
pub mod lfj;
pub mod multicall;
pub mod health;
pub mod spread_tracker;
pub mod stats;
pub mod zrx;
pub mod spread_filter;
pub mod market;
pub mod routers;
pub mod bot;
pub mod swap;
pub mod tokens;
pub mod sim_result;
pub mod v4_pools;
pub mod batch_pools;
pub mod node_config;
pub mod pool_scan;
pub mod pool_answers;
pub mod fast_arb;
pub mod lfj_calldata;
pub mod pool_calls;
pub mod router_calldata;
