use monad_arb::graph::{dex_path, token_path};
use monad_arb::tokens::{usdc_token, wmon_token};
use monad_arb::address::Address;
use monad_arb::dex::Dex;
use monad_arb::graph::{cycle_signature, cycle_structure_valid, first_occurrences, is_cross_dex, ArbitrageGraph};

fn addr(n: u64) -> Address {
    Address { high: 0, mid: 0, low: n }
}

#[test]
fn directed_triangle_has_one_cycle() {
    let mut g = ArbitrageGraph::new();
    g.add_pool(addr(101), Dex::UniswapV3, 3000, addr(1), addr(2), true, false);
    g.add_pool(addr(102), Dex::LFJ, 10, addr(2), addr(3), true, false);
    g.add_pool(addr(103), Dex::PancakeSwapV3, 500, addr(3), addr(1), true, false);
    assert_eq!(g.node_count(), 3);
    assert_eq!(g.edge_count(), 3);

    let cycles = g.find_cycles_from(addr(1), 3);
    assert_eq!(cycles.len(), 1);
    assert_eq!(cycles[0].path, vec![addr(1), addr(2), addr(3), addr(1)]);
    assert_eq!(cycles[0].pools, vec![addr(101), addr(102), addr(103)]);
    assert_eq!(cycles[0].dexes, vec![Dex::UniswapV3, Dex::LFJ, Dex::PancakeSwapV3]);
    assert_eq!(cycles[0].fees, vec![3000, 10, 500]);

    assert!(g.find_cycles_from(addr(1), 2).is_empty());
    assert!(g.find_cycles_from(addr(9), 3).is_empty());
}

#[test]
fn node_lookup() {
    let mut g = ArbitrageGraph::new();
    assert_eq!(g.get_node(addr(1)), None);
    g.add_pool(addr(101), Dex::UniswapV3, 3000, addr(1), addr(2), true, true);
    assert_eq!(g.get_node(addr(1)), Some(0));
    assert_eq!(g.get_token(1), Some(addr(2)));
    assert_eq!(g.get_token(5), None);
    assert_eq!(g.edge_count(), 2);
}

#[test]
fn structure_checks() {
    let path = vec![addr(1), addr(2), addr(3), addr(1)];
    let pools = vec![addr(101), addr(102), addr(103)];
    assert!(cycle_structure_valid(&path, &pools));
    let short = vec![addr(1), addr(1)];
    assert!(!cycle_structure_valid(&short, &vec![addr(101)]));
    let repeated_pool = vec![addr(101), addr(101), addr(103)];
    assert!(!cycle_structure_valid(&path, &repeated_pool));
    let open = vec![addr(1), addr(2), addr(3), addr(2)];
    assert!(!cycle_structure_valid(&open, &pools));
}

#[test]
fn cross_dex_detection() {
    assert!(!is_cross_dex(&vec![]));
    assert!(!is_cross_dex(&vec![Dex::LFJ, Dex::LFJ]));
    assert!(is_cross_dex(&vec![Dex::LFJ, Dex::UniswapV3]));
}

#[test]
fn signatures_deduplicate_rotations() {
    let a = cycle_signature(&vec![addr(3), addr(1), addr(2)]);
    let b = cycle_signature(&vec![addr(2), addr(3), addr(1)]);
    assert_eq!(a, vec![addr(1), addr(2), addr(3)]);
    assert_eq!(a, b);
    let c = cycle_signature(&vec![addr(4), addr(1)]);
    let keep = first_occurrences(&vec![a, b, c]);
    assert_eq!(keep, vec![true, false, true]);
}

#[test]
fn cycle_paths_as_text() {
    assert_eq!(dex_path(&vec![Dex::UniswapV3, Dex::LFJ]), "Uniswap V3 -> LFJ");
    assert_eq!(dex_path(&vec![]), "");
    assert_eq!(token_path(&vec![wmon_token(), usdc_token(), wmon_token()]), "WMON -> USDC -> WMON");
    assert_eq!(token_path(&vec![addr(5)]), "???");
}

#[test]
fn newest_edges_are_walked_first() {
    // two pools from token 1 to token 2, one back: the cycle through the
    // pool added last is met first
    let mut g = ArbitrageGraph::new();
    assert_eq!(g.add_pool(addr(201), Dex::UniswapV3, 3000, addr(1), addr(2), true, false), (Some(0), None));
    assert_eq!(g.add_pool(addr(202), Dex::LFJ, 15, addr(1), addr(2), true, false), (Some(1), None));
    assert_eq!(g.add_pool(addr(203), Dex::PancakeSwapV3, 500, addr(2), addr(1), true, false), (Some(2), None));
    let cycles = g.find_cycles_from(addr(1), 3);
    assert_eq!(cycles.len(), 2);
    assert_eq!(cycles[0].pools, vec![addr(202), addr(203)]);
    assert_eq!(cycles[0].edge_ids, vec![1, 2]);
    assert_eq!(cycles[1].pools, vec![addr(201), addr(203)]);
    assert_eq!(cycles[1].edge_ids, vec![0, 2]);
    assert_eq!(g.node_count(), 2);
    assert_eq!(g.get_token(0), Some(addr(1)));
}
