use monad_arb::address::Address;
use monad_arb::tokens::{base_tokens, decimals, symbol, usdc_token, wbtc_token, wmon_token};

fn parse(hex: &str) -> Address {
    let a: alloy::primitives::Address = hex.parse().unwrap();
    let b = a.0 .0;
    Address {
        high: u32::from_be_bytes([b[0], b[1], b[2], b[3]]),
        mid: u64::from_be_bytes([b[4], b[5], b[6], b[7], b[8], b[9], b[10], b[11]]),
        low: u64::from_be_bytes([b[12], b[13], b[14], b[15], b[16], b[17], b[18], b[19]]),
    }
}

#[test]
fn known_tokens() {
    assert_eq!(wmon_token(), parse("0x3bd359C1119dA7Da1D913D1C4D2B7c461115433A"));
    assert_eq!(wbtc_token(), parse("0x0555E30da8f98308EdB960aa94C0Db47230d2B9c"));
    assert_eq!(symbol(parse("0xA3227C5969757783154C60bF0bC1944180ed81B9")), "sMON");
    assert_eq!(symbol(parse("0x8498312A6B3CbD158bf0c93AbdCF29E6e4F55081")), "gMON");
    assert_eq!(symbol(parse("0xe7cd86e13AC4309349F30B3435a9d337750fC82D")), "USDT");
    assert_eq!(symbol(parse("0x0000000000000000000000000000000000000001")), "???");
    assert_eq!(decimals(usdc_token()), 6);
    assert_eq!(decimals(wbtc_token()), 8);
    assert_eq!(decimals(parse("0x0000000000000000000000000000000000000001")), 18);
    assert_eq!(base_tokens().len(), 4);
    assert_eq!(base_tokens()[3], parse("0xEE8c0E9f1BFFb4Eb878d8f15f368A02a35481242"));
}
