use monad_arb::address::Address;
use monad_arb::dex::Dex;
use monad_arb::profit::{FlashLoanProvider, ProfitCalculator};
use monad_arb::simulation::{
    assess_quotes, build_pool_infos, build_rejection_reason, determine_confidence, empty_breakdown,
    gas_too_high_reason, output_too_low_reason, QuoteAssessment, SimulationConfidence,
};
use monad_arb::uint::U256;

fn addr(n: u64) -> Address {
    Address { high: 0, mid: 0, low: n }
}

fn u(x: u128) -> U256 {
    U256::from_u128(x)
}

#[test]
fn pool_infos_follow_the_path() {
    let path = vec![addr(5), addr(2), addr(5)];
    let pools = vec![addr(100), addr(200)];
    let dexes = vec![Dex::UniswapV3, Dex::LFJ];
    let fees = vec![3000, 10];
    let infos = build_pool_infos(&path, &pools, &dexes, &fees);
    assert_eq!(infos.len(), 2);
    // first hop sells token 5 for token 2: token0 is the smaller address
    assert_eq!(infos[0].token0, addr(2));
    assert_eq!(infos[0].token1, addr(5));
    assert!(!infos[0].zero_for_one);
    assert!(infos[1].zero_for_one);
    assert_eq!(infos[1].dex, Dex::LFJ);
    assert_eq!(infos[1].fee, 10);
}

#[test]
fn confidence_levels() {
    assert_eq!(determine_confidence(&vec![u(5), u(7)], &vec![u(1)]), SimulationConfidence::Medium);
    assert_eq!(determine_confidence(&vec![u(5), u(0)], &vec![u(1)]), SimulationConfidence::Low);
    assert_eq!(determine_confidence(&vec![u(5)], &vec![u(0)]), SimulationConfidence::Low);
    assert_eq!(SimulationConfidence::High.display_name(), "HIGH");
}

#[test]
fn gas_too_high_is_rejected() {
    let calc = ProfitCalculator::new(FlashLoanProvider::Neverland, 10, 5);
    let r = assess_quotes(&calc, u(1000), u(1000), 960_000, &vec![30, 30], u(1));
    assert_eq!(r, QuoteAssessment::GasTooHigh { gas_units: 1_010_000 });
    assert_eq!(
        gas_too_high_reason(1_010_000),
        "Gas estimate too high (1010000 > 1000000), likely swap would revert"
    );
}

#[test]
fn low_output_is_rejected() {
    let calc = ProfitCalculator::new(FlashLoanProvider::Neverland, 10, 5);
    let r = assess_quotes(&calc, u(10_000), u(4_000), 100_000, &vec![30], u(1));
    assert_eq!(r, QuoteAssessment::OutputTooLow { loss_bps: 6000 });
    let z = assess_quotes(&calc, u(10_000), u(0), 100_000, &vec![30], u(1));
    assert_eq!(z, QuoteAssessment::OutputTooLow { loss_bps: 10000 });
    assert_eq!(
        output_too_low_reason(6000),
        "Gross output too low (-6000 bps), likely pool returned bad quote"
    );
}

#[test]
fn sound_quotes_are_evaluated() {
    let calc = ProfitCalculator::new(FlashLoanProvider::Neverland, 10, 5);
    let r = assess_quotes(&calc, u(10_000), u(10_100), 100_000, &vec![30, 25], u(0));
    match r {
        QuoteAssessment::Evaluated { breakdown, total_dex_fees_bps, gas_units } => {
            assert_eq!(total_dex_fees_bps, 55);
            assert_eq!(gas_units, 150_000);
            assert_eq!(breakdown.gross_profit_bps, 100);
            assert_eq!(breakdown.net_profit_bps, 91);
        }
        _ => panic!("expected an evaluation"),
    }
}

#[test]
fn rejection_reasons() {
    let calc = ProfitCalculator::new(FlashLoanProvider::Neverland, 10, 5);
    let loss = calc.calculate(u(10_000), u(9_900), 30, 10, u(2));
    assert_eq!(
        build_rejection_reason(&loss),
        "Net loss of 129 bps (DEX fees: 30 bps, flash loan: 9 bps, gas: 20 wei)"
    );
    let thin = calc.calculate(u(10_000), u(10_010), 30, 0, u(0));
    assert_eq!(build_rejection_reason(&thin), "Profit 1 bps below threshold 15 bps");
}

#[test]
fn empty_breakdown_is_empty() {
    let b = empty_breakdown(u(42));
    assert_eq!(b.input_amount, u(42));
    assert_eq!(b.net_profit, 0);
    assert!(!b.is_profitable);
}
