use monad_arb::config::SwapDirection;
use monad_arb::routers::{build_fast_swap_tx, direction_tokens, fast_fee_caps};
use monad_arb::address::Address;
use monad_arb::config::{PoolType, RouterType};
use monad_arb::routers::{
    build_swap_calldata, get_all_pools, get_lfj_pool, get_router_by_name, get_routers, get_v3_pools,
    usdc_address, wmon_address, RouterCall,
};
use monad_arb::uint::U256;

fn parse(hex: &str) -> Address {
    let a: alloy::primitives::Address = hex.parse().unwrap();
    let b = a.0 .0;
    Address {
        high: u32::from_be_bytes([b[0], b[1], b[2], b[3]]),
        mid: u64::from_be_bytes([b[4], b[5], b[6], b[7], b[8], b[9], b[10], b[11]]),
        low: u64::from_be_bytes([b[12], b[13], b[14], b[15], b[16], b[17], b[18], b[19]]),
    }
}

#[test]
fn token_addresses() {
    assert_eq!(wmon_address(), parse("0x3bd359C1119dA7Da1D913D1C4D2B7c461115433A"));
    assert_eq!(usdc_address(), parse("0x754704Bc059F8C67012fEd69BC8A327a5aafb603"));
}

#[test]
fn pool_list() {
    let v3 = get_v3_pools();
    assert_eq!(v3.len(), 3);
    assert_eq!(v3[0].address, parse("0x659bd0bc4167ba25c62e05656f78043e7ed4a9da"));
    assert_eq!(v3[2].fee_bps, 25);
    assert_eq!(get_lfj_pool().pool_type, PoolType::LiquidityBook);
    let all = get_all_pools();
    assert_eq!(all.len(), 5);
    assert_eq!(all[4].name, "MondayTrade");
    assert_eq!(all[4].address, parse("0x8f889ba499c0a176fb8f233d9d35b1c132eb868c"));
}

#[test]
fn router_list() {
    let r = get_routers();
    assert_eq!(r.len(), 5);
    assert_eq!(r[0].address, parse("0xfE31F71C1b106EAc32F1A19239c9a9A72ddfb900"));
    assert_eq!(r[1].address, parse("0x21114915Ac6d5A2e156931e20B20b038dEd0Be7C"));
    assert_eq!(r[3].address, parse("0x18556DA13313f3532c54711497A8FedAC273220E"));
    assert_eq!(r[3].pool_address, parse("0x5e60bc3f7a7303bc4dfe4dc2220bdc90bc04fe22"));
    assert_eq!(r[4].address, parse("0xFE951b693A2FE54BE5148614B109E316B567632F"));
    assert_eq!(r[2].pool_address, parse("0x85717A98d195c9306BBf7c9523Ba71F044Fea0f7"));
}

#[test]
fn router_by_name_ignores_case() {
    assert_eq!(get_router_by_name("lfj").map(|r| r.name), Some("LFJ"));
    assert_eq!(get_router_by_name("PANCAKESWAP2").map(|r| r.pool_fee), Some(2500));
    assert!(get_router_by_name("sushi").is_none());
}

#[test]
fn lfj_call_uses_pool_bin_step() {
    let a = parse("0x0000000000000000000000000000000000000001");
    let b = parse("0x0000000000000000000000000000000000000002");
    let call = build_swap_calldata(RouterType::LfjLB, a, b, U256::from_u64(100), U256::from_u64(90), a, 15, 1234);
    match call {
        RouterCall::LfjSwapExactTokensForTokens { pair_bin_steps, versions, token_path, deadline, .. } => {
            assert_eq!(pair_bin_steps, vec![U256::from_u64(15)]);
            assert_eq!(versions, vec![3]);
            assert_eq!(token_path, vec![a, b]);
            assert_eq!(deadline, U256::from_u64(1234));
        }
        _ => panic!("expected an LFJ path swap"),
    }
}

#[test]
fn v3_and_monday_calls() {
    let a = parse("0x0000000000000000000000000000000000000001");
    let b = parse("0x0000000000000000000000000000000000000002");
    match build_swap_calldata(RouterType::PancakeV3, a, b, U256::from_u64(5), U256::from_u64(4), b, 500, 9) {
        RouterCall::ExactInputSingle { fee, sqrt_price_limit_x96, recipient, .. } => {
            assert_eq!(fee, 500);
            assert_eq!(sqrt_price_limit_x96, U256::zero());
            assert_eq!(recipient, b);
        }
        _ => panic!("expected exactInputSingle"),
    }
    match build_swap_calldata(RouterType::MondayTrade, a, b, U256::from_u64(5), U256::from_u64(4), b, 500, 9) {
        RouterCall::ExactInputSingleWithDeadline { deadline, fee, .. } => {
            assert_eq!(deadline, U256::from_u64(9));
            assert_eq!(fee, 500);
        }
        _ => panic!("expected the Monday Trade call"),
    }
}

#[test]
fn fast_swap_legs() {
    let routers = get_routers();
    let me = parse("0x00000000000000000000000000000000000000aa");
    let (sell_in, sell_out) = direction_tokens(SwapDirection::Sell);
    assert_eq!(sell_in, wmon_address());
    assert_eq!(sell_out, usdc_address());
    match build_fast_swap_tx(&routers[4], SwapDirection::Buy, U256::from_u64(10), U256::from_u64(9), me, 1_000) {
        RouterCall::ExactInputSingleWithDeadline { token_in, token_out, deadline, .. } => {
            assert_eq!(token_in, usdc_address());
            assert_eq!(token_out, wmon_address());
            assert_eq!(deadline, U256::from_u64(1_300));
        }
        _ => panic!("expected the Monday Trade call"),
    }
    assert_eq!(fast_fee_caps(100), (110, 10));
}
