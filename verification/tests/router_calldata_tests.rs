use monad_arb::address::{address_bytes, Address};
use monad_arb::config::RouterType;
use monad_arb::lfj_calldata::lfj_swap_calldata;
use monad_arb::router_calldata::{encode_router_call, execute_arb_calldata};
use monad_arb::routers::build_swap_calldata;
use monad_arb::tokens::{usdc_token, wmon_token};
use monad_arb::uint::U256;

fn word(v: u128) -> Vec<u8> {
    let mut w = vec![0u8; 16];
    w.extend_from_slice(&v.to_be_bytes());
    w
}

fn addr_word(a: Address) -> Vec<u8> {
    let mut w = vec![0u8; 12];
    w.extend_from_slice(&address_bytes(a));
    w
}

fn selector(signature: &str) -> Vec<u8> {
    alloy::primitives::keccak256(signature.as_bytes())[0..4].to_vec()
}

#[test]
fn swap_router02_exact_input_single() {
    let to = Address { high: 0, mid: 0, low: 0xbeef };
    let call = build_swap_calldata(
        RouterType::UniswapV3,
        wmon_token(),
        usdc_token(),
        U256::from_u128(1_000_000),
        U256::from_u128(990),
        to,
        3000,
        1_700_000_000,
    );
    let data = encode_router_call(&call);
    let mut expected = selector("exactInputSingle((address,address,uint24,address,uint256,uint256,uint160))");
    assert_eq!(expected, vec![0x04, 0xe4, 0x5a, 0xaf]);
    for w in [addr_word(wmon_token()), addr_word(usdc_token()), word(3000), addr_word(to), word(1_000_000),
        word(990), word(0)]
    {
        expected.extend_from_slice(&w);
    }
    assert_eq!(data, expected);
}

#[test]
fn iswap_router_exact_input_single_with_deadline() {
    let to = Address { high: 1, mid: 2, low: 3 };
    let call = build_swap_calldata(
        RouterType::MondayTrade,
        usdc_token(),
        wmon_token(),
        U256::from_u128(42),
        U256::from_u128(41),
        to,
        500,
        1_700_000_000,
    );
    let data = encode_router_call(&call);
    let mut expected =
        selector("exactInputSingle((address,address,uint24,address,uint256,uint256,uint256,uint160))");
    assert_eq!(expected, vec![0x41, 0x4b, 0xf3, 0x89]);
    assert_eq!(data.len(), 4 + 8 * 32);
    expected.extend_from_slice(&addr_word(usdc_token()));
    expected.extend_from_slice(&addr_word(wmon_token()));
    expected.extend_from_slice(&word(500));
    expected.extend_from_slice(&addr_word(to));
    assert_eq!(data[..4 + 4 * 32].to_vec(), expected);
    // amount in and minimum out follow the deadline, the price limit is 0
    assert_eq!(data[4 + 5 * 32..4 + 6 * 32].to_vec(), word(42));
    assert_eq!(data[4 + 6 * 32..4 + 7 * 32].to_vec(), word(41));
    assert_eq!(data[4 + 7 * 32..].to_vec(), word(0));
}

#[test]
fn lfj_calls_are_encoded_by_their_path() {
    let call = build_swap_calldata(
        RouterType::LfjLB,
        wmon_token(),
        usdc_token(),
        U256::from_u128(7),
        U256::from_u128(6),
        wmon_token(),
        15,
        9,
    );
    assert_eq!(encode_router_call(&call), lfj_swap_calldata(&call).unwrap());
}

#[test]
fn atomic_arb_calldata() {
    let sell_data = vec![0xaau8; 36];
    let data = execute_arb_calldata(RouterType::PancakeV3, &sell_data, RouterType::LfjLB, 10, U256::from_u128(99));
    let mut expected = selector("executeArbUnchecked(uint8,bytes,uint8,uint24,uint256)");
    for w in [word(1), word(0xa0), word(3), word(10), word(99), word(36)] {
        expected.extend_from_slice(&w);
    }
    expected.extend_from_slice(&sell_data);
    expected.extend_from_slice(&[0u8; 28]);
    assert_eq!(data, expected);
}
