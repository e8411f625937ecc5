use monad_arb::market::{RouteStep, Venue};
use monad_arb::spread_filter::{default_thresholds, evaluate_spread, FilterResult};
use monad_arb::spread_tracker::{SpreadSnapshot, SpreadTracker};
use monad_arb::stats::{get_arb_log_path, StatsLogger};
use monad_arb::zrx::{check_liquidity, route_sources, Fill, PriceResponse, RouteInfo, ZrxError};

fn price(liquidity: bool, route: Option<RouteInfo>) -> PriceResponse {
    PriceResponse {
        buy_amount: "29132".to_string(),
        sell_amount: "1000000000000000000".to_string(),
        buy_token: "USDC".to_string(),
        sell_token: "WMON".to_string(),
        liquidity_available: liquidity,
        gas: "150000".to_string(),
        gas_price: "52000000000".to_string(),
        route,
    }
}

#[test]
fn stats_ids_count_up() {
    let mut s = StatsLogger::new("stats.jsonl");
    assert_eq!(s.file_path(), "stats.jsonl");
    assert_eq!(s.next_id(), 1);
    assert_eq!(s.next_id(), 2);
    assert_eq!(get_arb_log_path(), "arb_opportunities.log");
}

#[test]
fn zrx_answers() {
    assert!(check_liquidity(price(true, None)).is_ok());
    assert_eq!(check_liquidity(price(false, None)).err(), Some(ZrxError::NoLiquidity));
    assert_eq!(ZrxError::NoLiquidity.message(), "No liquidity available for this pair");
    let route = RouteInfo {
        fills: vec![
            Fill { source: "Uniswap_V3".to_string(), proportion_bps: "6000".to_string() },
            Fill { source: "Kuru".to_string(), proportion_bps: "4000".to_string() },
        ],
    };
    assert_eq!(route_sources(&price(true, Some(route))), vec!["Uniswap_V3".to_string(), "Kuru".to_string()]);
    assert!(route_sources(&price(true, None)).is_empty());
}

#[test]
fn filter_order() {
    let t = default_thresholds();
    assert!(matches!(evaluate_spread(&t, true, false, 0, 20), FilterResult::Skip { reason } if reason == "velocity too high - bot signature detected"));
    assert!(matches!(evaluate_spread(&t, false, true, 9, 9), FilterResult::Skip { reason } if reason == "dead spread - no momentum"));
    assert!(matches!(evaluate_spread(&t, false, false, 0, 8), FilterResult::Skip { reason } if reason == "spread too thin for margin"));
    assert!(matches!(evaluate_spread(&t, false, false, 3, 12), FilterResult::Skip { reason } if reason == "baseline elevated - late to opportunity"));
    assert!(matches!(evaluate_spread(&t, false, true, 0, 12), FilterResult::Execute));
}

fn snapshot(ts: u128, net: i32) -> SpreadSnapshot<f64> {
    SpreadSnapshot {
        timestamp_ms: ts,
        buy_pool: "A".to_string(),
        sell_pool: "B".to_string(),
        buy_price: 1.0,
        sell_price: 1.01,
        gross_spread_bps: net + 5,
        net_spread_bps: net,
    }
}

#[test]
fn tracker_window_shape() {
    let mut t = SpreadTracker::new(3);
    assert!(t.analyze().is_none());
    t.record(snapshot(0, 2));
    t.record(snapshot(100, 5));
    t.record(snapshot(300, 4));
    t.record(snapshot(1000, 12));
    assert_eq!(t.history().len(), 3);
    let s = t.analyze().unwrap();
    assert_eq!(s.window_duration_ms, 900);
    assert_eq!(s.spread_delta_bps, 7);
    assert_eq!(s.spread_at_trigger, 12);
    assert_eq!(s.max_spread_in_window, 12);
    assert_eq!(s.min_spread_in_window, 4);
    let h = s.halves.unwrap();
    assert_eq!((h.first_ms, h.second_ms, h.first_delta_bps, h.second_delta_bps), (200, 700, -1, 8));
}

#[test]
fn tracker_needs_time() {
    let mut t = SpreadTracker::new(5);
    t.record(snapshot(10, 1));
    t.record(snapshot(10, 3));
    assert!(t.analyze().is_none());
}

#[test]
fn venues_and_routes() {
    let v = Venue::Uniswap;
    assert_ne!(v, Venue::Nadfun);
    let r = RouteStep { dex: "Kuru".to_string(), pool: "0x1".to_string() };
    assert_eq!(r.dex, "Kuru");
}

#[test]
fn spread_history_text() {
    let mut t = SpreadTracker::new(3);
    assert_eq!(t.format_history(), "");
    t.record(snapshot(0, 12));
    assert_eq!(t.format_history(), "12bps@0ms");
    t.record(snapshot(150, -3));
    t.record(snapshot(300, 40));
    t.record(snapshot(450, 41));
    assert_eq!(t.format_history(), "-3bps@150ms -> 40bps@300ms -> 41bps@450ms");
}
