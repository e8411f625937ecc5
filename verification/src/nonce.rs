//! Transaction nonces handed out locally, so that transactions sent in
//! quick succession do not wait for the node to count them.
//!
//! The node is asked for the wallet's transaction count once; every
//! transaction after that takes the next number. Fetching the count is the
//! caller's work: `init_nonce_start` says whether a fetch is needed, and
//! `init_nonce_finish` takes its result.

use crate::address::Address;
use vstd::prelude::*;

verus! {

/// The nonce counter and the wallet it counts for; each is set once.
pub struct NonceManager {
    nonce: Option<u64>,
    wallet: Option<Address>,
}

impl NonceManager {
    /// The next nonce to hand out, once the counter has been set.
    pub closed spec fn counter(self) -> Option<u64> {
        self.nonce
    }

    /// The wallet recorded by the first initialisation.
    pub closed spec fn wallet_address(self) -> Option<Address> {
        self.wallet
    }

    /// A manager that has not been initialised.
    pub fn new() -> (r: Self)
        ensures
            r.counter() is None,
            r.wallet_address() is None,
    {
        NonceManager { nonce: None, wallet: None }
    }

    /// First half of initialisation: records the wallet if none is recorded
    /// yet, and gives the current nonce if the counter is already set (then
    /// no fetch is needed; `None` asks the caller to fetch the wallet's
    /// transaction count and pass it to `init_nonce_finish`).
    pub fn init_nonce_start(&mut self, wallet_address: Address) -> (r: Option<u64>)
        ensures
            final(self).wallet_address() == (match old(self).wallet_address() {
                Some(w) => Some(w),
                None => Some(wallet_address),
            }),
            final(self).counter() == old(self).counter(),
            r == old(self).counter(),
    {
        if self.wallet.is_none() {
            self.wallet = Some(wallet_address);
        }
        self.nonce
    }

    /// Second half of initialisation: sets the counter to the fetched
    /// transaction count unless it was set meanwhile, and gives the fetched
    /// count back.
    pub fn init_nonce_finish(&mut self, fetched: u64) -> (r: u64)
        ensures
            final(self).counter() == (match old(self).counter() {
                Some(n) => Some(n),
                None => Some(fetched),
            }),
            final(self).wallet_address() == old(self).wallet_address(),
            r == fetched,
    {
        if self.nonce.is_none() {
            self.nonce = Some(fetched);
        }
        fetched
    }

    /// The wallet whose transaction count a reset fetches.
    pub fn reset_wallet(&self) -> (r: Address)
        requires
            self.wallet_address() is Some,
        ensures
            Some(r) == self.wallet_address(),
    {
        match self.wallet {
            Some(w) => w,
            None => Address { high: 0, mid: 0, low: 0 },
        }
    }

    /// After a failed transaction: the counter, if set, takes the freshly
    /// fetched transaction count; the count is given back.
    pub fn reset_nonce_finish(&mut self, fetched: u64) -> (r: u64)
        ensures
            final(self).counter() == (match old(self).counter() {
                Some(_) => Some(fetched),
                None => None,
            }),
            final(self).wallet_address() == old(self).wallet_address(),
            r == fetched,
    {
        if self.nonce.is_some() {
            self.nonce = Some(fetched);
        }
        fetched
    }
}

/// Take the next nonce: gives the counter and advances it by one (wrapping
/// as an atomic add does).
pub fn next_nonce(m: &mut NonceManager) -> (r: u64)
    requires
        old(m).counter() is Some,
    ensures
        Some(r) == old(m).counter(),
        final(m).counter() == Some(r.wrapping_add(1)),
        final(m).wallet_address() == old(m).wallet_address(),
{
    let n = match m.nonce {
        Some(n) => n,
        None => 0,
    };
    m.nonce = Some(n.wrapping_add(1));
    n
}

/// The nonce the next transaction will take, without taking it.
pub fn current_nonce(m: &NonceManager) -> (r: u64)
    requires
        m.counter() is Some,
    ensures
        Some(r) == m.counter(),
{
    match m.nonce {
        Some(n) => n,
        None => 0,
    }
}

/// The counter after the first `i` of a run of takes, each of which gave
/// the counter and advanced it by one.
proof fn lemma_counter_after_takes(counters: Seq<Option<u64>>, taken: Seq<u64>, i: int)
    requires
        counters.len() == taken.len() + 1,
        counters[0] is Some,
        forall|t: int|
            0 <= t < taken.len() ==> Some(#[trigger] taken[t]) == counters[t] && counters[t + 1]
                == Some(taken[t].wrapping_add(1)),
        0 <= i <= taken.len(),
    ensures
        counters[i] == Some(((counters[0]->0 + i) % 0x1_0000_0000_0000_0000) as u64),
    decreases i,
{
    if i > 0 {
        lemma_counter_after_takes(counters, taken, i - 1);
        let c0 = counters[0]->0 as int;
        let x = taken[i - 1] as int;
        assert(Some(taken[i - 1]) == counters[i - 1]);
        assert(x == (c0 + i - 1) % 0x1_0000_0000_0000_0000);
        assert(((c0 + i - 1) % 0x1_0000_0000_0000_0000 + 1) % 0x1_0000_0000_0000_0000 == (c0 + i)
            % 0x1_0000_0000_0000_0000) by (nonlinear_arith);
        assert(x + 1 <= 0x1_0000_0000_0000_0000);
    }
}

/// Taking nonces one after another hands out consecutive numbers: from a
/// counter at `n`, the `i`-th take gives `n + i` (modulo 2^64), the counter
/// then stands at `n` plus the number of takes, and no number is handed out
/// twice while at most 2^64 nonces are taken.
pub proof fn law_successive_nonces(counters: Seq<Option<u64>>, taken: Seq<u64>)
    requires
        counters.len() == taken.len() + 1,
        counters[0] is Some,
        forall|t: int|
            0 <= t < taken.len() ==> Some(#[trigger] taken[t]) == counters[t] && counters[t + 1]
                == Some(taken[t].wrapping_add(1)),
    ensures
        forall|i: int|
            0 <= i < taken.len() ==> #[trigger] taken[i] as int == (counters[0]->0 + i)
                % 0x1_0000_0000_0000_0000,
        counters.last() == Some(
            ((counters[0]->0 + taken.len()) % 0x1_0000_0000_0000_0000) as u64,
        ),
        taken.len() <= 0x1_0000_0000_0000_0000 ==> forall|i: int, j: int|
            0 <= i < j < taken.len() ==> #[trigger] taken[i] != #[trigger] taken[j],
{
    let c0 = counters[0]->0 as int;
    assert forall|i: int| 0 <= i < taken.len() implies #[trigger] taken[i] as int == (c0 + i)
        % 0x1_0000_0000_0000_0000 by {
        lemma_counter_after_takes(counters, taken, i);
    }
    lemma_counter_after_takes(counters, taken, taken.len() as int);
    if taken.len() <= 0x1_0000_0000_0000_0000 {
        assert forall|i: int, j: int| 0 <= i < j < taken.len() implies #[trigger] taken[i]
            != #[trigger] taken[j] by {
            let a = c0 + i;
            let b = c0 + j;
            assert(a % 0x1_0000_0000_0000_0000 != b % 0x1_0000_0000_0000_0000) by (nonlinear_arith)
                requires
                    0 <= a < b,
                    b - a < 0x1_0000_0000_0000_0000,
            ;
        }
    }
}

} // verus!
