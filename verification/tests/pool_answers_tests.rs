use monad_arb::lfj::DecodeError;
use monad_arb::pool_answers::{decode_contract_balances, decode_reserves_response, decode_slot0_response};
use monad_arb::uint::U256;

#[test]
fn slot0_sqrt_price() {
    let mut data = vec![0u8; 224];
    // sqrtPriceX96 = 2^96 + 5
    data[31 - 12] = 1;
    data[31] = 5;
    let expected = alloy::primitives::U256::from(1u128 << 96) + alloy::primitives::U256::from(5u8);
    let r = decode_slot0_response(&data).unwrap();
    assert_eq!(alloy::primitives::U256::from_limbs(r.limbs), expected);
    // a tick of -1 in the second word does not touch the price
    for b in data[32..64].iter_mut() {
        *b = 0xff;
    }
    assert_eq!(alloy::primitives::U256::from_limbs(decode_slot0_response(&data).unwrap().limbs), expected);
    assert_eq!(decode_slot0_response(&data[..223]), Err(DecodeError::Abi));
    assert_eq!(decode_slot0_response(&[]), Err(DecodeError::Abi));
    let zero = decode_slot0_response(&vec![0u8; 224]).unwrap();
    assert_eq!(zero, U256::from_u128(0));
}

#[test]
fn reserves() {
    let mut data = vec![0u8; 96];
    data[31] = 7;
    data[30] = 1;
    data[63] = 9;
    data[95] = 1;
    assert_eq!(decode_reserves_response(&data), Ok((263, 9)));
    assert_eq!(decode_reserves_response(&data[..95]), Err(DecodeError::Abi));
}

#[test]
fn contract_balances() {
    let mut data = vec![0u8; 64];
    // WMON: 2^255 + 7 (the whole word counts), USDC: 1_500_000
    data[0] = 0x80;
    data[31] = 7;
    data[61] = 0x16;
    data[62] = 0xe3;
    data[63] = 0x60;
    let (wmon, usdc) = decode_contract_balances(&data).unwrap();
    let expected_wmon = (alloy::primitives::U256::from(1u8) << 255) + alloy::primitives::U256::from(7u8);
    assert_eq!(alloy::primitives::U256::from_limbs(wmon.limbs), expected_wmon);
    assert_eq!(usdc, U256::from_u128(1_500_000));
    assert_eq!(decode_contract_balances(&data[..63]), Err(DecodeError::Abi));
}
