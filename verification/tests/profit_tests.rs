use monad_arb::profit::{format_amount, format_gas_cost, FlashLoanProvider, ProfitCalculator};
use monad_arb::uint::U256;

fn u(x: u128) -> U256 {
    U256::from_u128(x)
}

#[test]
fn test_profit_calculation() {
    let calculator = ProfitCalculator::new(FlashLoanProvider::Neverland, 10, 5);

    let input = u(1000u128 * 10u128.pow(18));
    let output = u(1010u128 * 10u128.pow(18));
    let gas_units = 300_000u64;
    let gas_price = u(50u128 * 10u128.pow(9));

    let breakdown = calculator.calculate(input, output, 60, gas_units, gas_price);

    assert!(breakdown.gross_profit_bps == 100);
    assert!(breakdown.is_profitable);
    println!("{}", breakdown.detailed_breakdown());
}

#[test]
fn test_flash_loan_fees() {
    assert_eq!(FlashLoanProvider::Neverland.fee_bps(), 9);
    assert_eq!(FlashLoanProvider::AaveV3.fee_bps(), 5);
    assert_eq!(FlashLoanProvider::NoProvider.fee_bps(), 0);
}

#[test]
fn test_breakeven_calculation() {
    let calculator = ProfitCalculator::new(FlashLoanProvider::Neverland, 10, 5);

    let input = u(1000u128 * 10u128.pow(18));
    let gas_cost = u(10u128.pow(15));

    let breakeven = calculator.breakeven_output(input, gas_cost);

    let a = alloy::primitives::U256::from(1000u128 * 10u128.pow(18));
    let expected_flash_fee = a * alloy::primitives::U256::from(9) / alloy::primitives::U256::from(10000);
    let expected = a + expected_flash_fee + alloy::primitives::U256::from(10u128.pow(15));

    assert_eq!(breakeven, U256 { limbs: expected.into_limbs() });
}

#[test]
fn profit_breakdown_values() {
    let calculator = ProfitCalculator::new(FlashLoanProvider::Neverland, 10, 5);
    let input = u(1000u128 * 10u128.pow(18));
    let output = u(1010u128 * 10u128.pow(18));
    let b = calculator.calculate(input, output, 60, 300_000, u(50u128 * 10u128.pow(9)));
    // flash fee 0.09% of 1000 tokens
    assert_eq!(b.flash_loan_fee, u(900_000_000_000_000_000));
    assert_eq!(b.flash_loan_fee_bps, 9);
    // gas 300000 * 50 gwei
    assert_eq!(b.gas_cost, u(15_000_000_000_000_000));
    // dex fees 0.6% of input
    assert_eq!(b.total_dex_fees, u(6_000_000_000_000_000_000));
    assert_eq!(b.net_output, u(1010u128 * 10u128.pow(18) - 900_000_000_000_000_000 - 15_000_000_000_000_000));
    assert_eq!(b.net_profit, 10i128 * 10i128.pow(18) - 915_000_000_000_000_000);
    assert_eq!(b.net_profit_bps, 90);
    assert_eq!(b.min_profit_threshold_bps, 15);
    assert!(b.above_threshold);
}

#[test]
fn loss_is_negative_profit() {
    let calculator = ProfitCalculator::new(FlashLoanProvider::AaveV3, 10, 5);
    let b = calculator.calculate(u(10_000), u(9_000), 30, 0, u(0));
    assert_eq!(b.gross_profit, -1000);
    assert_eq!(b.gross_profit_bps, -1000);
    assert!(!b.is_profitable);
    assert!(!b.above_threshold);
}

#[test]
fn zero_input_has_zero_bps() {
    let calculator = ProfitCalculator::default();
    let b = calculator.calculate(u(0), u(100), 0, 0, u(0));
    assert_eq!(b.gross_profit_bps, 0);
    assert_eq!(b.net_profit_bps, 0);
    assert_eq!(b.gross_profit, 100);
}

#[test]
fn minimum_output_adds_threshold() {
    let calculator = ProfitCalculator::new(FlashLoanProvider::NoProvider, 10, 5);
    let m = calculator.minimum_output_for_profit(u(1_000_000), u(100));
    // 1_000_000 + 0 + 100 + 1_000_000 * 15 / 10000
    assert_eq!(m, u(1_000_000 + 100 + 1_500));
    let b = calculator.breakeven_output(u(1_000_000), u(100));
    assert_eq!(b, u(1_000_100));
}

#[test]
fn required_gross_profit() {
    let calculator = ProfitCalculator::new(FlashLoanProvider::Neverland, 10, 5);
    assert_eq!(calculator.required_gross_profit_bps(3), 9 + 3 + 10 + 5);
}

#[test]
fn switch_provider() {
    let mut calculator = ProfitCalculator::default();
    assert_eq!(calculator.flash_loan_provider(), FlashLoanProvider::Neverland);
    calculator.set_flash_loan_provider(FlashLoanProvider::AaveV3);
    assert_eq!(calculator.flash_loan_provider(), FlashLoanProvider::AaveV3);
    assert_eq!(FlashLoanProvider::AaveV3.name(), "Aave V3");
    assert_eq!(FlashLoanProvider::NoProvider.name(), "None");
}

#[test]
fn amounts_format_with_four_decimals() {
    assert_eq!(format_amount(u(1_234_567_800_000_000_000)), "1.2345");
    assert_eq!(format_amount(u(5)), "0.0000");
    assert_eq!(format_gas_cost(u(0)), "~0");
    assert_eq!(format_gas_cost(u(15_000_000_000_000_000)), "0.0150 MON");
}

#[test]
fn summary_line() {
    let calculator = ProfitCalculator::new(FlashLoanProvider::Neverland, 10, 5);
    let b = calculator.calculate(u(10_000), u(10_100), 30, 0, u(0));
    assert_eq!(
        b.summary(),
        "Gross: 100 bps | DEX Fees: -30 bps | Flash Loan: -9 bps | Gas: ~~0 | Net: 91 bps"
    );
}
