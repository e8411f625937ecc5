use monad_arb::node_config::{derive_ws_url, node_config, replace_all};

#[test]
fn replacing_text() {
    assert_eq!(replace_all("http://a/http://b", "http://", "ws://"), "ws://a/ws://b");
    assert_eq!(replace_all("aaa", "aa", "b"), "aaa".replace("aa", "b"));
    assert_eq!(replace_all("abc", "x", "y"), "abc");
    assert_eq!(replace_all("", "x", "y"), "");
}

#[test]
fn websocket_endpoints() {
    assert_eq!(derive_ws_url("http://127.0.0.1:8080"), "ws://127.0.0.1:8081");
    assert_eq!(derive_ws_url("http://localhost:9000"), "ws://127.0.0.1:8081");
    assert_eq!(derive_ws_url("https://rpc.monad.xyz"), "wss://rpc.monad.xyz");
    assert_eq!(derive_ws_url("http://10.0.0.5:8080"), "ws://10.0.0.5:8080");
}

#[test]
fn local_and_remote_settings() {
    let local = node_config("http://127.0.0.1:8080".to_string(), None);
    assert!(local.is_local);
    assert_eq!(local.ws_url, "ws://127.0.0.1:8081");
    assert_eq!(local.poll_interval_ms, 50);
    assert_eq!(local.receipt_poll_interval_ms, 2);
    assert_eq!(local.gas_buffer_pct, 110);
    assert!(local.skip_block_wait);
    assert_eq!(local.multicall_batch_size, 100);

    let remote = node_config("https://rpc.monad.xyz".to_string(), Some("wss://other".to_string()));
    assert!(!remote.is_local);
    assert_eq!(remote.ws_url, "wss://other");
    assert_eq!(remote.poll_interval_ms, 1000);
    assert_eq!(remote.receipt_poll_interval_ms, 100);
    assert_eq!(remote.gas_buffer_pct, 115);
    assert!(!remote.skip_block_wait);
    assert_eq!(remote.multicall_batch_size, 50);

    let lan = node_config("http://192.168.1.4:8080".to_string(), None);
    assert!(lan.is_local);
    assert_eq!(lan.ws_url, "ws://192.168.1.4:8080");
}
