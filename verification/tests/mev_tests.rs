use std::collections::HashMap;
use monad_arb::mev::{
    apply_block_state, lifecycle_counts, parse_block_number, prune_lifecycles, snapshot_wanted,
    take_lifecycle, BlockLifecycle, CommitState, MonadBlockHeader, PriceSnapshot,
};

fn header(number: &str, state: &str) -> MonadBlockHeader {
    MonadBlockHeader {
        number: number.to_string(),
        hash: "0xabc".to_string(),
        commit_state: state.to_string(),
        timestamp: "0x1".to_string(),
        miner: String::new(),
    }
}

fn snap(block: u64, ts: u128, spread: i32) -> PriceSnapshot<u32> {
    PriceSnapshot {
        block_number: block,
        commit_state: "x".to_string(),
        timestamp_ms: ts,
        wall_clock: String::new(),
        prices: vec![],
        best_spread_bps: spread,
        best_pair: None,
    }
}

#[test]
fn commit_states_parse() {
    assert_eq!(CommitState::from_str("Proposed"), Some(CommitState::Proposed));
    assert_eq!(CommitState::from_str("Voted"), Some(CommitState::Voted));
    assert_eq!(CommitState::from_str("Finalized"), Some(CommitState::Finalized));
    assert_eq!(CommitState::from_str("Verified"), Some(CommitState::Verified));
    assert_eq!(CommitState::from_str("proposed"), None);
    assert_eq!(header("0x1", "Voted").state(), Some(CommitState::Voted));
}

#[test]
fn block_numbers_are_hex() {
    assert_eq!(header("0x1a", "Voted").block_number(), 26);
    assert_eq!(parse_block_number("ff"), 255);
    assert_eq!(parse_block_number("0x0xFF"), 255);
    assert_eq!(parse_block_number("+10"), 16);
    assert_eq!(parse_block_number("0x"), 0);
    assert_eq!(parse_block_number("0xzz"), 0);
    assert_eq!(parse_block_number("0xffffffffffffffff"), u64::MAX);
    assert_eq!(parse_block_number("0x10000000000000000"), 0);
}

#[test]
fn lifecycle_completes_at_finalized() {
    let mut lc: BlockLifecycle<u32> = BlockLifecycle::new(7);
    assert!(snapshot_wanted("Proposed"));
    assert!(!snapshot_wanted("Voted"));
    assert!(!apply_block_state(&mut lc, "Proposed", Some(snap(7, 100, 15))));
    assert!(!apply_block_state(&mut lc, "Voted", Some(snap(7, 300, 0))));
    assert!(!lc.is_complete());
    assert!(apply_block_state(&mut lc, "Finalized", Some(snap(7, 1100, 12))));
    assert!(lc.is_complete());
    assert_eq!(lc.proposed_to_finalized_ms, Some(1000));
    assert_eq!(lc.spread_at_proposed_bps, Some(15));
    assert_eq!(lc.spread_at_finalized_bps, Some(12));
    assert_eq!(lc.spread_delta_bps, Some(-3));
    assert_eq!(lc.spread_persisted, Some(true));
}

#[test]
fn open_lifecycles_are_found_and_pruned() {
    let mut open: HashMap<u64, BlockLifecycle<u32>> = HashMap::new();
    open.insert(5, BlockLifecycle::new(5));
    open.insert(30, BlockLifecycle::new(30));
    let lc = take_lifecycle(&mut open, 30);
    assert_eq!(lc.block_number, 30);
    assert_eq!(open.len(), 1);
    let fresh = take_lifecycle(&mut open, 31);
    assert_eq!(fresh.block_number, 31);
    assert_eq!(open.len(), 1);
    open.insert(30, lc);
    open.insert(31, fresh);
    open.insert(11, BlockLifecycle::new(11));
    open.insert(10, BlockLifecycle::new(10));
    prune_lifecycles(&mut open, 30);
    // block 5 is 25 behind and block 10 is 20 behind: both go; block 11 is
    // 19 behind and block 31 is ahead: both stay
    let mut kept: Vec<u64> = open.keys().copied().collect();
    kept.sort();
    assert_eq!(kept, vec![11, 30, 31]);
}

#[test]
fn counts_over_finished_blocks() {
    let mut a: BlockLifecycle<u32> = BlockLifecycle::new(1);
    apply_block_state(&mut a, "Proposed", Some(snap(1, 0, 20)));
    apply_block_state(&mut a, "Finalized", Some(snap(1, 500, 5)));
    let mut b: BlockLifecycle<u32> = BlockLifecycle::new(2);
    apply_block_state(&mut b, "Proposed", Some(snap(2, 1000, 8)));
    apply_block_state(&mut b, "Finalized", Some(snap(2, 1700, 11)));
    let c = lifecycle_counts(&vec![a.clone(), b.clone()], 3);
    assert_eq!(c.complete_lifecycles, 2);
    assert_eq!(c.total_blocks_observed, 5);
    assert_eq!(c.blocks_with_spread_gt_10bps, 1);
    // block 2 ends above 10 bps but was not above 10 bps when proposed
    assert_eq!(c.blocks_where_spread_persisted, 0);
    assert_eq!(c.time_sum_ms, 1200);
    assert_eq!(c.min_proposed_to_finalized_ms, 500);
    assert_eq!(c.max_proposed_to_finalized_ms, 700);
    assert_eq!(c.proposed_spread_sum_bps, 28);
    assert_eq!(c.finalized_spread_sum_bps, 16);
    assert_eq!(c.spread_decay_sum_bps, -12);
    assert_eq!(c.max_spread_seen_bps, 20);

    let mut d: BlockLifecycle<u32> = BlockLifecycle::new(3);
    apply_block_state(&mut d, "Proposed", Some(snap(3, 0, 15)));
    apply_block_state(&mut d, "Finalized", Some(snap(3, 400, 12)));
    let c2 = lifecycle_counts(&vec![a, b, d], 0);
    assert_eq!(c2.blocks_with_spread_gt_10bps, 2);
    assert_eq!(c2.blocks_where_spread_persisted, 1);

    let none = lifecycle_counts::<u32>(&vec![], 4);
    assert_eq!(none.total_blocks_observed, 4);
    assert_eq!(none.complete_lifecycles, 0);
}

#[test]
fn hex_written_block_numbers_read_back() {
    for n in [0u64, 1, 15, 16, 255, 0x1234_abcd, 40_000_000, u64::MAX] {
        assert_eq!(parse_block_number(&format!("0x{:x}", n)), n);
        assert_eq!(header(&format!("0x{:x}", n), "Proposed").block_number(), n);
    }
    assert_eq!(parse_block_number(""), 0);
    assert_eq!(parse_block_number("0x1ffffffffffffffff"), 0);
}
