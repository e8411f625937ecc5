use monad_arb::address::Address;
use monad_arb::nonce::{current_nonce, next_nonce, NonceManager};

#[test]
fn nonces_count_up_from_the_fetched_count() {
    let wallet = Address { high: 1, mid: 0, low: 0 };
    let mut m = NonceManager::new();
    assert_eq!(m.init_nonce_start(wallet), None);
    assert_eq!(m.init_nonce_finish(7), 7);
    assert_eq!(current_nonce(&m), 7);
    assert_eq!(next_nonce(&mut m), 7);
    assert_eq!(next_nonce(&mut m), 8);
    assert_eq!(current_nonce(&m), 9);
}

#[test]
fn second_init_keeps_the_counter() {
    let wallet = Address { high: 1, mid: 0, low: 0 };
    let other = Address { high: 2, mid: 0, low: 0 };
    let mut m = NonceManager::new();
    m.init_nonce_start(wallet);
    m.init_nonce_finish(3);
    next_nonce(&mut m);
    assert_eq!(m.init_nonce_start(other), Some(4));
    assert_eq!(m.reset_wallet(), wallet);
    assert_eq!(m.init_nonce_finish(100), 100);
    assert_eq!(current_nonce(&m), 4);
}

#[test]
fn reset_takes_the_fetched_count() {
    let wallet = Address { high: 1, mid: 0, low: 0 };
    let mut m = NonceManager::new();
    m.init_nonce_start(wallet);
    m.init_nonce_finish(3);
    next_nonce(&mut m);
    assert_eq!(m.reset_nonce_finish(2), 2);
    assert_eq!(current_nonce(&m), 2);
}

#[test]
fn counter_wraps() {
    let mut m = NonceManager::new();
    m.init_nonce_start(Address { high: 0, mid: 0, low: 0 });
    m.init_nonce_finish(u64::MAX);
    assert_eq!(next_nonce(&mut m), u64::MAX);
    assert_eq!(current_nonce(&m), 0);
}

#[test]
fn successive_nonces_are_consecutive_and_distinct() {
    let mut m = NonceManager::new();
    m.init_nonce_start(Address { high: 3, mid: 0, low: 0 });
    m.init_nonce_finish(u64::MAX - 2);
    let taken: Vec<u64> = (0..5).map(|_| next_nonce(&mut m)).collect();
    assert_eq!(taken, vec![u64::MAX - 2, u64::MAX - 1, u64::MAX, 0, 1]);
    assert_eq!(current_nonce(&m), 2);
}
