use monad_arb::address::address_bytes;
use monad_arb::config::RouterType;
use monad_arb::lfj_calldata::lfj_swap_calldata;
use monad_arb::routers::{build_swap_calldata, RouterCall};
use monad_arb::tokens::{usdc_token, wmon_token};
use monad_arb::address::Address;
use monad_arb::uint::U256;

fn word(v: u128) -> Vec<u8> {
    let mut w = vec![0u8; 16];
    w.extend_from_slice(&v.to_be_bytes());
    w
}

fn addr_word(a: Address) -> Vec<u8> {
    let mut w = vec![0u8; 12];
    w.extend_from_slice(&address_bytes(a));
    w
}

#[test]
fn lfj_calldata_layout() {
    let to = Address { high: 0, mid: 0, low: 0xbeef };
    let call = build_swap_calldata(
        RouterType::LfjLB,
        wmon_token(),
        usdc_token(),
        U256::from_u128(1_000_000),
        U256::from_u128(990),
        to,
        15,
        1_700_000_000,
    );
    let data = lfj_swap_calldata(&call).unwrap();
    let selector = alloy::primitives::keccak256(
        "swapExactTokensForTokens(uint256,uint256,(uint256[],uint8[],address[]),address,uint256)".as_bytes(),
    );
    let mut expected = selector[0..4].to_vec();
    for w in [word(1_000_000), word(990), word(0xa0), addr_word(to), word(1_700_000_000), word(0x60), word(0xa0),
        word(0xe0), word(1), word(15), word(1), word(3), word(2), addr_word(wmon_token()), addr_word(usdc_token())]
    {
        expected.extend_from_slice(&w);
    }
    assert_eq!(data.len(), 484);
    assert_eq!(data, expected);
    assert_eq!(data[292..324].to_vec(), word(15));
}

#[test]
fn multi_hop_lfj_calldata_layout() {
    let to = Address { high: 0, mid: 0, low: 0xbeef };
    let middle = Address { high: 7, mid: 8, low: 9 };
    let call = RouterCall::LfjSwapExactTokensForTokens {
        amount_in: U256::from_u128(5),
        amount_out_min: U256::from_u128(4),
        pair_bin_steps: vec![U256::from_u128(15), U256::from_u128(25)],
        versions: vec![3, 2],
        token_path: vec![wmon_token(), middle, usdc_token()],
        to,
        deadline: U256::from_u128(77),
    };
    let data = lfj_swap_calldata(&call).unwrap();
    let selector = alloy::primitives::keccak256(
        "swapExactTokensForTokens(uint256,uint256,(uint256[],uint8[],address[]),address,uint256)".as_bytes(),
    );
    let mut expected = selector[0..4].to_vec();
    for w in [word(5), word(4), word(0xa0), addr_word(to), word(77), word(0x60), word(0xc0), word(0x120),
        word(2), word(15), word(25), word(2), word(3), word(2), word(3), addr_word(wmon_token()),
        addr_word(middle), addr_word(usdc_token())]
    {
        expected.extend_from_slice(&w);
    }
    assert_eq!(data, expected);
    // the second pair's bin step sits in the tenth word after the selector
    assert_eq!(data[324..356].to_vec(), word(25));
}

#[test]
fn other_calls_have_no_lfj_calldata() {
    let call = build_swap_calldata(
        RouterType::UniswapV3,
        wmon_token(),
        usdc_token(),
        U256::from_u128(1),
        U256::from_u128(1),
        wmon_token(),
        3000,
        0,
    );
    assert!(lfj_swap_calldata(&call).is_none());
}
