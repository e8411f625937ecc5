use monad_arb::health::{check_node_ready, contains_str, detect_local_node, starts_with_str, NodeHealth};

#[test]
fn healthy_node() {
    let h = NodeHealth::from_readings(100, 0, false, 20, 143);
    assert!(h.is_healthy);
    assert!(h.chain_id_valid);
    assert_eq!(check_node_ready(&h), Ok(false));
    let slow = NodeHealth::from_readings(100, 3, false, 800, 143);
    assert!(!slow.is_healthy);
    assert_eq!(check_node_ready(&slow), Ok(true));
}

#[test]
fn unready_nodes() {
    let syncing = NodeHealth::from_readings(55, 0, true, 20, 143);
    assert_eq!(
        check_node_ready(&syncing),
        Err("Node is still syncing at block 55. Wait for sync to complete before trading.".to_string())
    );
    let wrong = NodeHealth::from_readings(55, 0, false, 20, 1);
    assert!(!wrong.chain_id_valid);
    assert_eq!(
        check_node_ready(&wrong),
        Err("Connected to wrong chain! Expected Monad mainnet (143), got chain ID 1".to_string())
    );
}

#[test]
fn local_node_urls() {
    assert!(detect_local_node("http://127.0.0.1:8080"));
    assert!(detect_local_node("ws://localhost:8081"));
    assert!(detect_local_node("http://192.168.1.5:8080"));
    assert!(detect_local_node("http://10.0.0.2:8080"));
    assert!(!detect_local_node("https://rpc.monad.xyz"));
    assert!(!detect_local_node("https://10.0.0.2"));
    assert!(contains_str("abc", ""));
    assert!(!contains_str("", "a"));
    assert!(starts_with_str("http://x", "http://"));
}
