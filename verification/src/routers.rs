//! The configured pools and routers, and the swap call each router takes.
//!
//! A swap call is described here field by field; its ABI encoding is made
//! from this description by the caller.

use crate::address::Address;
use crate::config::{PoolType, RouterType, SwapDirection};
use crate::uint::U256;
use vstd::prelude::*;

verus! {

/// Wrapped MON.
pub fn wmon_address() -> (r: Address)
    ensures
        r == (Address { high: 0x3bd359c1, mid: 0x119da7da1d913d1c, low: 0x4d2b7c461115433a }),
{
    Address { high: 0x3bd359c1, mid: 0x119da7da1d913d1c, low: 0x4d2b7c461115433a }
}

/// USDC.
pub fn usdc_address() -> (r: Address)
    ensures
        r == (Address { high: 0x754704bc, mid: 0x059f8c67012fed69, low: 0xbc8a327a5aafb603 }),
{
    Address { high: 0x754704bc, mid: 0x059f8c67012fed69, low: 0xbc8a327a5aafb603 }
}

/// The Multicall3 contract.
pub fn multicall3_address() -> (r: Address)
    ensures
        r == (Address { high: 0xca11bde0, mid: 0x5977b36311670288, low: 0x62be2a173976ca11 }),
{
    Address { high: 0xca11bde0, mid: 0x5977b36311670288, low: 0x62be2a173976ca11 }
}

/// The atomic arbitrage contract.
pub fn atomic_arb_contract() -> (r: Address)
    ensures
        r == (Address { high: 0x7299dab2, mid: 0x965c0a6ce471a828, low: 0x4a1d05bb483e05b2 }),
{
    Address { high: 0x7299dab2, mid: 0x965c0a6ce471a828, low: 0x4a1d05bb483e05b2 }
}

/// Decimals of WMON.
pub const WMON_DECIMALS: u8 = 18;

/// Decimals of USDC.
pub const USDC_DECIMALS: u8 = 6;

/// A pool priced by the monitor.
#[derive(Debug, Clone, Copy)]
pub struct PoolConfig {
    pub name: &'static str,
    pub address: Address,
    pub pool_type: PoolType,
    /// Fee in basis points (100 = 1%).
    pub fee_bps: u32,
}

/// The V3-style pools: Uniswap (30 bps) and two PancakeSwap pools (5 and
/// 25 bps).
pub fn get_v3_pools() -> (r: Vec<PoolConfig>)
    ensures
        r@.len() == 3,
        r@[0].name@ == "Uniswap"@ && r@[0].pool_type == PoolType::UniswapV3 && r@[0].fee_bps == 30
            && r@[0].address == (Address { high: 0x659bd0bc, mid: 0x4167ba25c62e0565, low: 0x6f78043e7ed4a9da }),
        r@[1].name@ == "PancakeSwap1"@ && r@[1].pool_type == PoolType::PancakeV3 && r@[1].fee_bps == 5
            && r@[1].address == (Address { high: 0x63e48b72, mid: 0x5540a3db24acf668, low: 0x2a29f877808c53f2 }),
        r@[2].name@ == "PancakeSwap2"@ && r@[2].pool_type == PoolType::PancakeV3 && r@[2].fee_bps == 25
            && r@[2].address == (Address { high: 0x85717a98, mid: 0xd195c9306bbf7c95, low: 0x23ba71f044fea0f7 }),
{
    let mut r: Vec<PoolConfig> = Vec::new();
    r.push(PoolConfig {
        name: "Uniswap",
        address: Address { high: 0x659bd0bc, mid: 0x4167ba25c62e0565, low: 0x6f78043e7ed4a9da },
        pool_type: PoolType::UniswapV3,
        fee_bps: 30,
    });
    r.push(PoolConfig {
        name: "PancakeSwap1",
        address: Address { high: 0x63e48b72, mid: 0x5540a3db24acf668, low: 0x2a29f877808c53f2 },
        pool_type: PoolType::PancakeV3,
        fee_bps: 5,
    });
    r.push(PoolConfig {
        name: "PancakeSwap2",
        address: Address { high: 0x85717a98, mid: 0xd195c9306bbf7c95, low: 0x23ba71f044fea0f7 },
        pool_type: PoolType::PancakeV3,
        fee_bps: 25,
    });
    r
}

/// The LFJ pool (bin step 10, about 10 bps base fee).
pub fn get_lfj_pool() -> (r: PoolConfig)
    ensures
        r.name@ == "LFJ"@,
        r.pool_type == PoolType::LiquidityBook,
        r.fee_bps == 10,
        r.address == (Address { high: 0x5e60bc3f, mid: 0x7a7303bc4dfe4dc2, low: 0x220bdc90bc04fe22 }),
{
    PoolConfig {
        name: "LFJ",
        address: Address { high: 0x5e60bc3f, mid: 0x7a7303bc4dfe4dc2, low: 0x220bdc90bc04fe22 },
        pool_type: PoolType::LiquidityBook,
        fee_bps: 10,
    }
}

/// The Monday Trade pool (5 bps).
pub fn get_monday_trade_pool() -> (r: PoolConfig)
    ensures
        r.name@ == "MondayTrade"@,
        r.pool_type == PoolType::MondayTrade,
        r.fee_bps == 5,
        r.address == (Address { high: 0x8f889ba4, mid: 0x99c0a176fb8f233d, low: 0x9d35b1c132eb868c }),
{
    PoolConfig {
        name: "MondayTrade",
        address: Address { high: 0x8f889ba4, mid: 0x99c0a176fb8f233d, low: 0x9d35b1c132eb868c },
        pool_type: PoolType::MondayTrade,
        fee_bps: 5,
    }
}

/// All pools: the V3 pools, then LFJ, then Monday Trade.
pub fn get_all_pools() -> (r: Vec<PoolConfig>)
    ensures
        r@.len() == 5,
        r@[0].name@ == "Uniswap"@,
        r@[1].name@ == "PancakeSwap1"@,
        r@[2].name@ == "PancakeSwap2"@,
        r@[3].name@ == "LFJ"@,
        r@[4].name@ == "MondayTrade"@,
{
    let mut pools = get_v3_pools();
    pools.push(get_lfj_pool());
    pools.push(get_monday_trade_pool());
    pools
}

/// A router a swap can go through, with the pool it uses.
#[derive(Debug, Clone, Copy)]
pub struct RouterConfig {
    pub name: &'static str,
    pub address: Address,
    pub router_type: RouterType,
    pub pool_address: Address,
    /// Fee tier in hundredths of a bip for V3 pools; the bin step for LFJ.
    pub pool_fee: u32,
}

/// The routers, in order: Uniswap, PancakeSwap (two pools), LFJ, Monday
/// Trade.
pub fn get_routers() -> (r: Vec<RouterConfig>)
    ensures
        r@.len() == 5,
        r@[0].name@ == "Uniswap"@ && r@[0].router_type == RouterType::UniswapV3 && r@[0].pool_fee == 3000
            && r@[0].address == (Address { high: 0xfe31f71c, mid: 0x1b106eac32f1a192, low: 0x39c9a9a72ddfb900 })
            && r@[0].pool_address == (Address { high: 0x659bd0bc, mid: 0x4167ba25c62e0565, low: 0x6f78043e7ed4a9da }),
        r@[1].name@ == "PancakeSwap1"@ && r@[1].router_type == RouterType::PancakeV3 && r@[1].pool_fee == 500
            && r@[1].address == (Address { high: 0x21114915, mid: 0xac6d5a2e156931e2, low: 0x0b20b038ded0be7c })
            && r@[1].pool_address == (Address { high: 0x63e48b72, mid: 0x5540a3db24acf668, low: 0x2a29f877808c53f2 }),
        r@[2].name@ == "PancakeSwap2"@ && r@[2].router_type == RouterType::PancakeV3 && r@[2].pool_fee == 2500
            && r@[2].address == (Address { high: 0x21114915, mid: 0xac6d5a2e156931e2, low: 0x0b20b038ded0be7c })
            && r@[2].pool_address == (Address { high: 0x85717a98, mid: 0xd195c9306bbf7c95, low: 0x23ba71f044fea0f7 }),
        r@[3].name@ == "LFJ"@ && r@[3].router_type == RouterType::LfjLB && r@[3].pool_fee == 10
            && r@[3].address == (Address { high: 0x18556da1, mid: 0x3313f3532c547114, low: 0x97a8fedac273220e })
            && r@[3].pool_address == (Address { high: 0x5e60bc3f, mid: 0x7a7303bc4dfe4dc2, low: 0x220bdc90bc04fe22 }),
        r@[4].name@ == "MondayTrade"@ && r@[4].router_type == RouterType::MondayTrade && r@[4].pool_fee == 500
            && r@[4].address == (Address { high: 0xfe951b69, mid: 0x3a2fe54be5148614, low: 0xb109e316b567632f })
            && r@[4].pool_address == (Address { high: 0x8f889ba4, mid: 0x99c0a176fb8f233d, low: 0x9d35b1c132eb868c }),
{
    let uniswap_router = Address { high: 0xfe31f71c, mid: 0x1b106eac32f1a192, low: 0x39c9a9a72ddfb900 };
    let pancake_router = Address { high: 0x21114915, mid: 0xac6d5a2e156931e2, low: 0x0b20b038ded0be7c };
    let lfj_router = Address { high: 0x18556da1, mid: 0x3313f3532c547114, low: 0x97a8fedac273220e };
    let monday_router = Address { high: 0xfe951b69, mid: 0x3a2fe54be5148614, low: 0xb109e316b567632f };
    let mut r: Vec<RouterConfig> = Vec::new();
    r.push(RouterConfig {
        name: "Uniswap",
        address: uniswap_router,
        router_type: RouterType::UniswapV3,
        pool_address: Address { high: 0x659bd0bc, mid: 0x4167ba25c62e0565, low: 0x6f78043e7ed4a9da },
        pool_fee: 3000,
    });
    r.push(RouterConfig {
        name: "PancakeSwap1",
        address: pancake_router,
        router_type: RouterType::PancakeV3,
        pool_address: Address { high: 0x63e48b72, mid: 0x5540a3db24acf668, low: 0x2a29f877808c53f2 },
        pool_fee: 500,
    });
    r.push(RouterConfig {
        name: "PancakeSwap2",
        address: pancake_router,
        router_type: RouterType::PancakeV3,
        pool_address: Address { high: 0x85717a98, mid: 0xd195c9306bbf7c95, low: 0x23ba71f044fea0f7 },
        pool_fee: 2500,
    });
    r.push(RouterConfig {
        name: "LFJ",
        address: lfj_router,
        router_type: RouterType::LfjLB,
        pool_address: Address { high: 0x5e60bc3f, mid: 0x7a7303bc4dfe4dc2, low: 0x220bdc90bc04fe22 },
        pool_fee: 10,
    });
    r.push(RouterConfig {
        name: "MondayTrade",
        address: monday_router,
        router_type: RouterType::MondayTrade,
        pool_address: Address { high: 0x8f889ba4, mid: 0x99c0a176fb8f233d, low: 0x9d35b1c132eb868c },
        pool_fee: 500,
    });
    r
}

/// What `str::to_lowercase` gives for a string.
pub uninterp spec fn spec_to_lowercase(s: Seq<char>) -> Seq<char>;

/// `std`'s `str::to_lowercase`: the string with every character in lower
/// case (Unicode rules; not tied to any locale).
#[verifier::external_body]
fn to_lowercase(s: &str) -> (r: String)
    ensures
        r@ == spec_to_lowercase(s@),
{
    s.to_lowercase()
}

/// The names of the routers, in order.
pub open spec fn router_names() -> Seq<Seq<char>> {
    seq!["Uniswap"@, "PancakeSwap1"@, "PancakeSwap2"@, "LFJ"@, "MondayTrade"@]
}

/// Router `i` is the first whose name matches `name` ignoring case.
pub open spec fn first_name_match(name: Seq<char>, i: int) -> bool {
    &&& 0 <= i < 5
    &&& spec_to_lowercase(router_names()[i]) == spec_to_lowercase(name)
    &&& forall|j: int| 0 <= j < i ==> spec_to_lowercase(#[trigger] router_names()[j]) != spec_to_lowercase(name)
}

/// The first router whose name equals `name` ignoring case.
pub fn get_router_by_name(name: &str) -> (r: Option<RouterConfig>)
    ensures
        r matches Some(c) ==> exists|i: int| #[trigger] first_name_match(name@, i) && c.name@ == router_names()[i],
        r is None ==> forall|i: int| 0 <= i < 5 ==> spec_to_lowercase(#[trigger] router_names()[i]) != spec_to_lowercase(name@),
{
    let routers = get_routers();
    let wanted = to_lowercase(name);
    let mut i: usize = 0;
    while i < routers.len()
        invariant
            routers@.len() == 5,
            i <= 5,
            forall|k: int| 0 <= k < 5 ==> #[trigger] routers@[k].name@ == router_names()[k],
            wanted@ == spec_to_lowercase(name@),
            forall|j: int| 0 <= j < i ==> spec_to_lowercase(#[trigger] router_names()[j]) != spec_to_lowercase(name@),
        decreases routers.len() - i,
    {
        let candidate = to_lowercase(routers[i].name);
        if candidate == wanted {
            proof {
                assert(routers@[i as int].name@ == router_names()[i as int]);
                assert(first_name_match(name@, i as int));
            }
            return Some(routers[i]);
        }
        proof {
            assert(routers@[i as int].name@ == router_names()[i as int]);
        }
        i = i + 1;
    }
    None
}

/// A router's swap call, field by field.
#[derive(Debug, Clone)]
pub enum RouterCall {
    /// `exactInputSingle` of a SwapRouter02-style router (Uniswap V3,
    /// PancakeSwap V3): no deadline in the parameters.
    ExactInputSingle {
        token_in: Address,
        token_out: Address,
        /// A 24-bit fee tier.
        fee: u32,
        recipient: Address,
        amount_in: U256,
        amount_out_minimum: U256,
        sqrt_price_limit_x96: U256,
    },
    /// `exactInputSingle` of an ISwapRouter-style router (Monday Trade):
    /// the deadline is inside the parameters.
    ExactInputSingleWithDeadline {
        token_in: Address,
        token_out: Address,
        fee: u32,
        recipient: Address,
        deadline: U256,
        amount_in: U256,
        amount_out_minimum: U256,
        sqrt_price_limit_x96: U256,
    },
    /// `swapExactTokensForTokens` of the LFJ router, through a path.
    LfjSwapExactTokensForTokens {
        amount_in: U256,
        amount_out_min: U256,
        pair_bin_steps: Vec<U256>,
        versions: Vec<u8>,
        token_path: Vec<Address>,
        to: Address,
        deadline: U256,
    },
}

/// The pair version of Liquidity Book V2.2, the current one.
pub const LFJ_VERSION_V2_2: u8 = 3;

/// The LFJ swap through one pair: its bin step, version 3 (V2.2), and the
/// path from the input to the output token.
pub fn build_swap_with_bin_step(
    token_in: Address,
    token_out: Address,
    amount_in: U256,
    amount_out_min: U256,
    recipient: Address,
    deadline: u64,
    bin_step: u64,
) -> (r: RouterCall)
    ensures
        r matches RouterCall::LfjSwapExactTokensForTokens {
            amount_in: a,
            amount_out_min: m,
            pair_bin_steps,
            versions,
            token_path,
            to,
            deadline: d,
        } && a == amount_in && m == amount_out_min && pair_bin_steps@.len() == 1
            && pair_bin_steps@[0].value() == bin_step && versions@ == seq![LFJ_VERSION_V2_2]
            && token_path@ == seq![token_in, token_out] && to == recipient && d.value() == deadline,
{
    let mut steps: Vec<U256> = Vec::new();
    steps.push(U256::from_u64(bin_step));
    let mut versions: Vec<u8> = Vec::new();
    versions.push(LFJ_VERSION_V2_2);
    let mut path: Vec<Address> = Vec::new();
    path.push(token_in);
    path.push(token_out);
    RouterCall::LfjSwapExactTokensForTokens {
        amount_in,
        amount_out_min,
        pair_bin_steps: steps,
        versions,
        token_path: path,
        to: recipient,
        deadline: U256::from_u64(deadline),
    }
}

/// The swap call for a router. A V3-style router takes the pool's fee tier
/// and no price limit (Monday Trade also the deadline); LFJ takes the
/// pool's fee as the pair's bin step, which must be the pool's own or the
/// router finds no pair.
pub fn build_swap_calldata(
    router_type: RouterType,
    token_in: Address,
    token_out: Address,
    amount_in: U256,
    amount_out_min: U256,
    recipient: Address,
    pool_fee: u32,
    deadline: u64,
) -> (r: RouterCall)
    requires
        router_type != RouterType::LfjLB ==> pool_fee < 0x100_0000,
    ensures
        (router_type == RouterType::UniswapV3 || router_type == RouterType::PancakeV3) ==> (r matches RouterCall::ExactInputSingle {
            token_in: ti,
            token_out: to,
            fee,
            recipient: rc,
            amount_in: a,
            amount_out_minimum: m,
            sqrt_price_limit_x96: limit,
        } && ti == token_in && to == token_out && fee == pool_fee && rc == recipient && a == amount_in
            && m == amount_out_min && limit.value() == 0),
        router_type == RouterType::MondayTrade ==> (r matches RouterCall::ExactInputSingleWithDeadline {
            token_in: ti,
            token_out: to,
            fee,
            recipient: rc,
            deadline: d,
            amount_in: a,
            amount_out_minimum: m,
            sqrt_price_limit_x96: limit,
        } && ti == token_in && to == token_out && fee == pool_fee && rc == recipient && d.value()
            == deadline && a == amount_in && m == amount_out_min && limit.value() == 0),
        router_type == RouterType::LfjLB ==> (r matches RouterCall::LfjSwapExactTokensForTokens {
            amount_in: a,
            amount_out_min: m,
            pair_bin_steps,
            versions,
            token_path,
            to,
            deadline: d,
        } && a == amount_in && m == amount_out_min && pair_bin_steps@.len() == 1
            && pair_bin_steps@[0].value() == pool_fee && versions@ == seq![LFJ_VERSION_V2_2]
            && token_path@ == seq![token_in, token_out] && to == recipient && d.value() == deadline),
{
    match router_type {
        RouterType::UniswapV3 | RouterType::PancakeV3 => RouterCall::ExactInputSingle {
            token_in,
            token_out,
            fee: pool_fee,
            recipient,
            amount_in,
            amount_out_minimum: amount_out_min,
            sqrt_price_limit_x96: U256::zero(),
        },
        RouterType::LfjLB => build_swap_with_bin_step(
            token_in,
            token_out,
            amount_in,
            amount_out_min,
            recipient,
            deadline,
            pool_fee as u64,
        ),
        RouterType::MondayTrade => RouterCall::ExactInputSingleWithDeadline {
            token_in,
            token_out,
            fee: pool_fee,
            recipient,
            deadline: U256::from_u64(deadline),
            amount_in,
            amount_out_minimum: amount_out_min,
            sqrt_price_limit_x96: U256::zero(),
        },
    }
}

/// The tokens of a swap: selling WMON for USDC, or buying WMON with USDC.
pub open spec fn spec_direction_tokens(direction: SwapDirection) -> (Address, Address) {
    match direction {
        SwapDirection::Sell => (
            Address { high: 0x3bd359c1, mid: 0x119da7da1d913d1c, low: 0x4d2b7c461115433a },
            Address { high: 0x754704bc, mid: 0x059f8c67012fed69, low: 0xbc8a327a5aafb603 },
        ),
        SwapDirection::Buy => (
            Address { high: 0x754704bc, mid: 0x059f8c67012fed69, low: 0xbc8a327a5aafb603 },
            Address { high: 0x3bd359c1, mid: 0x119da7da1d913d1c, low: 0x4d2b7c461115433a },
        ),
    }
}

/// (token in, token out) of a swap in this direction.
pub fn direction_tokens(direction: SwapDirection) -> (r: (Address, Address))
    ensures
        r == spec_direction_tokens(direction),
{
    match direction {
        SwapDirection::Sell => (wmon_address(), usdc_address()),
        SwapDirection::Buy => (usdc_address(), wmon_address()),
    }
}

/// Seconds a swap stays valid after it is built.
pub const SWAP_DEADLINE_SECS: u64 = 300;

/// The swap call of one leg of a fast arbitrage: the router's own pool, the
/// direction's tokens, and a deadline five minutes after `now_secs`.
pub fn build_fast_swap_tx(
    router: &RouterConfig,
    direction: SwapDirection,
    amount_in: U256,
    amount_out_min: U256,
    recipient: Address,
    now_secs: u64,
) -> (r: RouterCall)
    requires
        now_secs + SWAP_DEADLINE_SECS <= u64::MAX,
        router.router_type != RouterType::LfjLB ==> router.pool_fee < 0x100_0000,
    ensures
        ({
            let (token_in, token_out) = spec_direction_tokens(direction);
            match r {
                RouterCall::ExactInputSingle { token_in: ti, token_out: to, fee, amount_in: a, .. } => (
                router.router_type == RouterType::UniswapV3 || router.router_type == RouterType::PancakeV3)
                    && ti == token_in && to == token_out && fee == router.pool_fee && a == amount_in,
                RouterCall::ExactInputSingleWithDeadline { token_in: ti, token_out: to, fee, deadline, amount_in: a, .. } =>
                    router.router_type == RouterType::MondayTrade && ti == token_in && to == token_out && fee
                    == router.pool_fee && deadline.value() == now_secs + SWAP_DEADLINE_SECS && a == amount_in,
                RouterCall::LfjSwapExactTokensForTokens { pair_bin_steps, token_path, deadline, amount_in: a, .. } =>
                    router.router_type == RouterType::LfjLB && pair_bin_steps@.len() == 1
                    && pair_bin_steps@[0].value() == router.pool_fee && token_path@ == seq![token_in, token_out]
                    && deadline.value() == now_secs + SWAP_DEADLINE_SECS && a == amount_in,
            }
        }),
{
    let (token_in, token_out) = direction_tokens(direction);
    let deadline = now_secs + SWAP_DEADLINE_SECS;
    build_swap_calldata(
        router.router_type,
        token_in,
        token_out,
        amount_in,
        amount_out_min,
        recipient,
        router.pool_fee,
        deadline,
    )
}

/// Fee caps of a fast swap: (max fee, priority fee), the priority fee a
/// tenth of the gas price and the max fee the gas price plus it.
pub fn fast_fee_caps(gas_price: u128) -> (r: (u128, u128))
    requires
        gas_price + gas_price / 10 <= u128::MAX,
    ensures
        r.0 == gas_price + gas_price / 10,
        r.1 == gas_price / 10,
{
    (gas_price + gas_price / 10, gas_price / 10)
}

} // verus!
