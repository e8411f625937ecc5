use monad_arb::address::Address;
use monad_arb::dex::Dex;
use monad_arb::fees::{lfj_base_fee_info, lfj_swap_fee_info, plan_pool_fee_query, v3_fee_info, FeeQuery, FeeValidator};

#[test]
fn test_fee_conversion() {
    assert_eq!(FeeValidator::<()>::convert_raw_fee_to_bps(100, Dex::UniswapV3), 1);
    assert_eq!(FeeValidator::<()>::convert_raw_fee_to_bps(500, Dex::UniswapV3), 5);
    assert_eq!(FeeValidator::<()>::convert_raw_fee_to_bps(3000, Dex::UniswapV3), 30);
    assert_eq!(FeeValidator::<()>::convert_raw_fee_to_bps(10000, Dex::UniswapV3), 100);

    assert_eq!(FeeValidator::<()>::convert_raw_fee_to_bps(2500, Dex::PancakeSwapV3), 25);
}

#[test]
fn test_fee_description() {
    assert_eq!(FeeValidator::<()>::fee_description(30), "30 bps (0.30%)");
    assert_eq!(FeeValidator::<()>::fee_description(100), "100 bps (1.00%)");
    assert_eq!(FeeValidator::<()>::fee_description(5), "5 bps (0.05%)");
}

#[test]
fn lfj_fees_are_already_bps() {
    assert_eq!(FeeValidator::<()>::convert_raw_fee_to_bps(25, Dex::LFJ), 25);
}

#[test]
fn v3_fee_info_converts() {
    let pool = Address { high: 1, mid: 2, low: 3 };
    let info = v3_fee_info(pool, Dex::UniswapV3, 3000);
    assert_eq!(info.fee_bps, 30);
    assert_eq!(info.raw_fee, 3000);
    assert!(!info.is_dynamic);
}

#[test]
fn lfj_swap_fee_from_amounts() {
    let pool = Address { high: 0, mid: 0, low: 9 };
    // 30 of 10000 taken: 30 bps
    let info = lfj_swap_fee_info(pool, 10_000, 30);
    assert_eq!(info.fee_bps, 30);
    assert_eq!(info.raw_fee, 3000);
    assert_eq!(info.dex_type, Dex::LFJ);
}

#[test]
fn lfj_base_fee_from_factor() {
    let pool = Address { high: 0, mid: 0, low: 9 };
    let info = lfj_base_fee_info(pool, 5000);
    assert_eq!(info.dex_type, Dex::LFJ);
    assert_eq!(info.fee_bps, 50);
    assert_eq!(info.raw_fee, 5000);
    assert!(info.is_dynamic);
}

#[test]
fn fee_query_by_dex() {
    let pool = Address { high: 0, mid: 0, low: 1 };
    assert!(matches!(plan_pool_fee_query(pool, Dex::UniswapV3, None), FeeQuery::V3Fee { dex: Dex::UniswapV3 }));
    assert!(matches!(plan_pool_fee_query(pool, Dex::LFJ, Some(1000)), FeeQuery::LfjSwapOut { amount_in: 1000 }));
    assert!(matches!(plan_pool_fee_query(pool, Dex::LFJ, None), FeeQuery::LfjStaticFee));
}
