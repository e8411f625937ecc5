use monad_arb::address::{address_bytes, Address};
use monad_arb::lfj::DecodeError;
use monad_arb::pool_answers::decode_aggregate3_answers;
use monad_arb::multicall::CallType;
use monad_arb::pool_calls::{
    balances_calldata, create_lfj_active_id_call, create_lfj_bin_step_call, create_monday_reserves_call,
    create_slot0_call, selector,
};
use monad_arb::routers::{get_lfj_pool, get_monday_trade_pool, get_v3_pools};

fn keccak_selector(signature: &str) -> Vec<u8> {
    alloy::primitives::keccak256(signature.as_bytes())[0..4].to_vec()
}

#[test]
fn test_create_slot0_call() {
    let pools = get_v3_pools();
    let call = create_slot0_call(&pools[0]);

    // slot0() selector is 0x3850c7bd
    assert_eq!(&call.calldata[..4], &[0x38, 0x50, 0xc7, 0xbd]);
}

#[test]
fn price_calls_carry_their_pool() {
    let pools = get_v3_pools();
    let call = create_slot0_call(&pools[1]);
    assert_eq!(call.pool_name, pools[1].name);
    assert_eq!(call.pool_address, pools[1].address);
    assert_eq!(call.fee_bps, pools[1].fee_bps);
    assert_eq!(call.call_type, CallType::V3Slot0);
    assert_eq!(call.calldata.len(), 4);

    let lfj = get_lfj_pool();
    let active = create_lfj_active_id_call(&lfj);
    assert_eq!(active.pool_name, lfj.name);
    assert_eq!(active.calldata, keccak_selector("getActiveId()"));
    assert_eq!(active.call_type, CallType::LfjActiveId);
    let step = create_lfj_bin_step_call(&lfj);
    assert_eq!(step.pool_name, format!("{}_binStep", lfj.name));
    assert_eq!(step.calldata, keccak_selector("getBinStep()"));
    assert_eq!(step.call_type, CallType::LfjBinStep);

    let monday = get_monday_trade_pool();
    let reserves = create_monday_reserves_call(&monday);
    assert_eq!(reserves.calldata, keccak_selector("getReserves()"));
    assert_eq!(reserves.call_type, CallType::MondayReserves);

    assert_eq!(balances_calldata(), keccak_selector("getBalances()"));
    assert_eq!(selector("transfer(address,uint256)"), vec![0xa9, 0x05, 0x9c, 0xbb]);
}

#[test]
fn multicall_round_trip_bytes() {
    let pools = get_v3_pools();
    let calls = vec![create_slot0_call(&pools[0]), create_lfj_bin_step_call(&get_lfj_pool())];
    let data = monad_arb::pool_calls::aggregate3_calldata(&calls);
    assert_eq!(data[..4].to_vec(), keccak_selector("aggregate3((address,bool,bytes)[])"));
    assert_eq!(data[..4].to_vec(), vec![0x82, 0xad, 0x56, 0xcb]);
    // offset of the array, its length, then the offsets of the two tuples
    let word = |i: usize| data[4 + 32 * i..4 + 32 * (i + 1)].to_vec();
    let mut w = vec![0u8; 32];
    w[31] = 0x20;
    assert_eq!(word(0), w);
    w[31] = 2;
    assert_eq!(word(1), w);
    // first tuple: target, allowFailure, bytes offset, length 4, selector
    let first = 2 + (u32::from_be_bytes([word(2)[28], word(2)[29], word(2)[30], word(2)[31]]) as usize) / 32;
    assert_eq!(word(first)[12..].to_vec(), monad_arb::address::address_bytes(pools[0].address).to_vec());
    assert_eq!(word(first + 1)[31], 1);
    assert_eq!(word(first + 3)[31], 4);
    assert_eq!(word(first + 4)[..4].to_vec(), vec![0x38, 0x50, 0xc7, 0xbd]);
}

#[test]
fn multicall_answers_decode() {
    // one answer: success, returning the two bytes ab cd
    let mut data = Vec::new();
    for (last, extra) in [(0x20u8, None), (1, None), (0x20, None), (1, None), (0x40, None), (2, None), (0, Some([0xab, 0xcd]))] {
        let mut w = vec![0u8; 32];
        match extra {
            Some(b) => {
                w[0] = b[0];
                w[1] = b[1];
            }
            None => w[31] = last,
        }
        data.extend_from_slice(&w);
    }
    let answers = decode_aggregate3_answers(&data).unwrap();
    assert_eq!(answers.len(), 1);
    assert!(answers[0].success);
    assert_eq!(answers[0].return_data, vec![0xab, 0xcd]);
    assert!(matches!(decode_aggregate3_answers(&data[..40]), Err(DecodeError::Abi)));
}

#[test]
fn erc20_calldata() {
    let owner = Address { high: 1, mid: 2, low: 3 };
    let spender = Address { high: 4, mid: 5, low: 6 };
    let word = |a: Address| {
        let mut w = vec![0u8; 12];
        w.extend_from_slice(&address_bytes(a));
        w
    };
    let mut expected = keccak_selector("balanceOf(address)");
    assert_eq!(expected, vec![0x70, 0xa0, 0x82, 0x31]);
    expected.extend(word(owner));
    assert_eq!(monad_arb::pool_calls::balance_of_calldata(owner), expected);
    let mut expected = keccak_selector("allowance(address,address)");
    expected.extend(word(owner));
    expected.extend(word(spender));
    assert_eq!(monad_arb::pool_calls::allowance_calldata(owner, spender), expected);
    let mut expected = keccak_selector("approve(address,uint256)");
    assert_eq!(expected, vec![0x09, 0x5e, 0xa7, 0xb3]);
    expected.extend(word(spender));
    expected.extend(vec![0xffu8; 32]);
    assert_eq!(monad_arb::pool_calls::approve_max_calldata(spender), expected);
}

#[test]
fn balance_answers_decode() {
    let mut data = vec![0u8; 32];
    data[30] = 0x01;
    data[31] = 0x02;
    assert_eq!(monad_arb::pool_answers::decode_balance_answer(&data), Ok(monad_arb::uint::U256::from_u128(0x102)));
    assert_eq!(monad_arb::pool_answers::decode_balance_answer(&data[..31]), Err(DecodeError::Abi));
}

#[test]
fn wmon_calldata() {
    assert_eq!(monad_arb::pool_calls::deposit_calldata(), vec![0xd0, 0xe3, 0x0d, 0xb0]);
    let data = monad_arb::pool_calls::withdraw_calldata(monad_arb::uint::U256::from_u128(1_000_000_000_000_000_000));
    let mut expected = keccak_selector("withdraw(uint256)");
    assert_eq!(expected, vec![0x2e, 0x1a, 0x7d, 0x4d]);
    let mut w = vec![0u8; 16];
    w.extend_from_slice(&1_000_000_000_000_000_000u128.to_be_bytes());
    expected.extend(w);
    assert_eq!(data, expected);
}

#[test]
fn contract_funding_calldata() {
    let to = Address { high: 9, mid: 8, low: 7 };
    let word = |a: Address| {
        let mut w = vec![0u8; 12];
        w.extend_from_slice(&address_bytes(a));
        w
    };
    let mut amount = vec![0u8; 31];
    amount.push(5);
    let mut expected = keccak_selector("transfer(address,uint256)");
    assert_eq!(expected, vec![0xa9, 0x05, 0x9c, 0xbb]);
    expected.extend(word(to));
    expected.extend(amount.clone());
    assert_eq!(monad_arb::pool_calls::transfer_calldata(to, monad_arb::uint::U256::from_u128(5)), expected);
    let mut expected = keccak_selector("withdrawToken(address,uint256)");
    expected.extend(word(to));
    expected.extend(amount);
    assert_eq!(monad_arb::pool_calls::withdraw_token_calldata(to, monad_arb::uint::U256::from_u128(5)), expected);
    let mut expected = keccak_selector("withdrawAllToken(address)");
    expected.extend(word(to));
    assert_eq!(monad_arb::pool_calls::withdraw_all_token_calldata(to), expected);
}
