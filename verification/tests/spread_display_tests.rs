use monad_arb::spread_display::{PairHistory, SpreadDisplay, SpreadLevel, Trend};

#[test]
fn levels_by_spread() {
    assert_eq!(SpreadLevel::from_bps(-1), SpreadLevel::Dead);
    assert_eq!(SpreadLevel::from_bps(0), SpreadLevel::Noise);
    assert_eq!(SpreadLevel::from_bps(4), SpreadLevel::Noise);
    assert_eq!(SpreadLevel::from_bps(5), SpreadLevel::Watching);
    assert_eq!(SpreadLevel::from_bps(10), SpreadLevel::Ready);
    assert_eq!(SpreadLevel::from_bps(15), SpreadLevel::Hot);
    assert_eq!(SpreadLevel::from_bps(25), SpreadLevel::Critical);
    assert_eq!(SpreadLevel::Critical.label(), "GO GO GO");
    assert_eq!(SpreadLevel::Ready.color_code(), "\x1b[32m");
}

#[test]
fn trend_of_history() {
    let mut h = PairHistory::new("A→B".to_string(), 10);
    assert_eq!(h.trend(), Trend::Stable);
    for v in [1, 2, 3, 4, 10] {
        h.push(v);
    }
    // last three average 5, oldest 1
    assert_eq!(h.trend(), Trend::Rising);
    assert_eq!(Trend::Rising.arrow(), "↑");
    let mut f = PairHistory::new("B→A".to_string(), 10);
    for v in [10, 9, 3] {
        f.push(v);
    }
    assert_eq!(f.trend(), Trend::Falling);
    assert_eq!(Trend::Falling.color(), "\x1b[31m");
}

#[test]
fn history_is_bounded() {
    let mut h = PairHistory::new("A→B".to_string(), 3);
    for v in 0..10 {
        h.push(v);
    }
    assert_eq!(h.history.len(), 3);
    assert_eq!(h.history.iter().copied().collect::<Vec<i32>>(), vec![7, 8, 9]);
}

#[test]
fn sparkline_shape() {
    let h = PairHistory::new("A→B".to_string(), 10);
    assert_eq!(h.sparkline(), "...........");
    let mut h = PairHistory::new("A→B".to_string(), 10);
    h.push(0);
    h.push(7);
    assert_eq!(h.sparkline(), "▁█");
    let mut c = PairHistory::new("A→B".to_string(), 20);
    for _ in 0..12 {
        c.push(3);
    }
    assert_eq!(c.sparkline().chars().count(), 10);
}

#[test]
fn oneline_shows_best_pair() {
    let mut d = SpreadDisplay::new(5, 10);
    assert_eq!(d.render_oneline(), "\x1b[90mNo active spreads\x1b[0m");
    d.record("A→B".to_string(), 3);
    d.record("C→D".to_string(), 12);
    let expected = format!("{}[{:>+4}bps] {:<25} {}\x1b[0m", "\x1b[32m", 12, "C→D", "READY");
    assert_eq!(d.render_oneline(), expected);
}

#[test]
fn ranked_pairs_descending() {
    let mut d = SpreadDisplay::new(5, 10);
    d.record("A→B".to_string(), 7);
    d.record("C→D".to_string(), 12);
    d.record("E→F".to_string(), 2);
    let ranked = d.ranked_pairs(5);
    assert_eq!(ranked, vec![1, 0]);
}

#[test]
fn dashboard_spread_section() {
    let mut d = SpreadDisplay::new(0, 20);
    d.record("A→B".to_string(), 10);
    d.record("C→D".to_string(), 30);
    d.record("A→B".to_string(), 12);
    let sep = format!("\x1b[2K  {}\n", "─".repeat(69));
    let mut expected = String::new();
    expected.push_str("\x1b[2K\n\x1b[2K\x1b[1m  SPREAD OPPORTUNITIES\x1b[0m\n");
    expected.push_str(&sep);
    expected.push_str(&format!(
        "\x1b[2K  {:<26} {:>8} {:>7} {:>3} {:>12} {:>10}\n",
        "PAIR", "NET", "LEVEL", "", "TREND", "ACTION"
    ));
    expected.push_str(&sep);
    expected.push_str(&format!(
        "\x1b[2K  \x1b[1;5;32m{:<26}\x1b[0m {:>+8} \x1b[1;5;32m{:>7}\x1b[0m \x1b[33m{:>3}\x1b[0m {:>12} {:>10}\n",
        "C→D", 30, "GO GO GO", "→", "▁", "\x1b[1;32mEXECUTE\x1b[0m"
    ));
    expected.push_str(&format!(
        "\x1b[2K  \x1b[32m{:<26}\x1b[0m {:>+8} \x1b[32m{:>7}\x1b[0m \x1b[33m{:>3}\x1b[0m {:>12} {:>10}\n",
        "A→B", 12, "READY", "→", "▁█", "\x1b[32mREADY\x1b[0m"
    ));
    for _ in 0..6 {
        expected.push_str("\x1b[2K\n");
    }
    assert_eq!(d.render_spread_section(), expected);
    // at most eight rows
    let mut many = SpreadDisplay::new(0, 5);
    for i in 0..10 {
        many.record(format!("P{}", i), i);
    }
    let out = many.render_spread_section();
    assert_eq!(out.matches('\n').count(), 5 + 8);
    assert!(out.contains("P9 "));
    assert!(!out.contains("P1 "));
}

#[test]
fn live_view_table() {
    let mut d = SpreadDisplay::new(5, 20);
    d.record("A→B".to_string(), 3);
    d.record("C→D".to_string(), 12);
    let line = format!("\x1b[2K  {}\n", "─".repeat(70));
    let mut expected = String::new();
    expected.push_str("\x1b[2K\r\x1b[1;36m[12:00:00.000] Block: 77 | Pairs: 2 | Filter: >5bps\x1b[0m\n");
    expected.push_str("\x1b[2K  \x1b[1m");
    expected.push_str(&format!(
        "{:<25} {:>8} {:>6} {:>3} {:>12} {:>8}\x1b[0m\n",
        "PAIR", "NET BPS", "LEVEL", "→", "SPARKLINE", "AGE"
    ));
    expected.push_str(&line);
    expected.push_str(&format!(
        "\x1b[2K  \x1b[32m{:<25}\x1b[0m {:>+8} \x1b[32m{:>6}\x1b[0m \x1b[33m{:>3}\x1b[0m {:>12} {:>8}\n",
        "C→D", 12, "READY", "→", "▁", "40ms"
    ));
    expected.push_str(&line);
    expected.push_str("\x1b[2K  \x1b[90mLevels: ");
    expected.push_str("\x1b[37mNOISE(<5)\x1b[90m | ");
    expected.push_str("\x1b[33mWATCH(5-9)\x1b[90m | ");
    expected.push_str("\x1b[32mREADY(10-14)\x1b[90m | ");
    expected.push_str("\x1b[1;32mHOT(15-24)\x1b[90m | ");
    expected.push_str("\x1b[1;5;32mGO(25+)\x1b[0m\n");
    assert_eq!(d.render("12:00:00.000", Some(77), 40), expected);

    let quiet = SpreadDisplay::new(5, 20);
    let out = quiet.render("t", None, 0);
    assert!(out.starts_with("\x1b[2K\r\x1b[1;36m[t] Block: ? | Pairs: 0 | Filter: >5bps\x1b[0m\n"));
    assert!(out.contains("\x1b[2K  \x1b[90mNo spreads above 5bps threshold\x1b[0m\n"));
}

#[test]
fn sparkline_scales_between_window_extremes() {
    let mut h = PairHistory::new("A→B".to_string(), 20);
    for v in [40, -5, 12, 40, 3, -5, 20] {
        h.push(v);
    }
    let bars: Vec<char> = h.sparkline().chars().collect();
    assert_eq!(bars.len(), 7);
    // smallest value drawn lowest, largest highest
    assert_eq!(bars[1], '▁');
    assert_eq!(bars[5], '▁');
    assert_eq!(bars[0], '█');
    assert_eq!(bars[3], '█');
    // larger values never get lower bars
    assert!(bars[4] <= bars[2]);
    assert!(bars[2] <= bars[6]);
    let mut flat = PairHistory::new("B→A".to_string(), 5);
    for _ in 0..3 {
        flat.push(9);
    }
    assert_eq!(flat.sparkline(), "▁▁▁");
}
