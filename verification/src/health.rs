//! Node health at startup: what a node's answers say about whether it can
//! be traded through, and whether an RPC address points to a local node.

use crate::text::{push_decimal, push_str, spec_decimal, str_chars};
use vstd::prelude::*;

verus! {

/// Chain id of Monad mainnet.
pub const MONAD_MAINNET_CHAIN_ID: u64 = 143;

/// RPC latency (ms) from which a node is not considered healthy.
pub const MAX_HEALTHY_LATENCY_MS: u64 = 500;

/// What a node health check found.
#[derive(Debug, Clone, Copy, PartialEq, Eq, Structural)]
pub struct NodeHealth {
    pub is_healthy: bool,
    pub block_number: u64,
    pub peer_count: u64,
    pub is_syncing: bool,
    pub rpc_latency_ms: u64,
    pub chain_id: u64,
    pub chain_id_valid: bool,
}

impl NodeHealth {
    /// The health of a node from its answers: the chain must be Monad
    /// mainnet, and a healthy node is not syncing and answers within
    /// 500 ms (a local node may have no peers).
    pub fn from_readings(block_number: u64, peer_count: u64, is_syncing: bool, rpc_latency_ms: u64, chain_id: u64) -> (r: NodeHealth)
        ensures
            r.block_number == block_number,
            r.peer_count == peer_count,
            r.is_syncing == is_syncing,
            r.rpc_latency_ms == rpc_latency_ms,
            r.chain_id == chain_id,
            r.chain_id_valid == (chain_id == MONAD_MAINNET_CHAIN_ID),
            r.is_healthy == (!is_syncing && rpc_latency_ms < MAX_HEALTHY_LATENCY_MS && chain_id
                == MONAD_MAINNET_CHAIN_ID),
    {
        let chain_id_valid = chain_id == MONAD_MAINNET_CHAIN_ID;
        NodeHealth {
            is_healthy: !is_syncing && rpc_latency_ms < MAX_HEALTHY_LATENCY_MS && chain_id_valid,
            block_number,
            peer_count,
            is_syncing,
            rpc_latency_ms,
            chain_id,
            chain_id_valid,
        }
    }
}

/// "Node is still syncing at block `n`. Wait for sync to complete before
/// trading."
pub open spec fn spec_syncing_error(block_number: u64) -> Seq<char> {
    "Node is still syncing at block "@ + spec_decimal(block_number as nat)
        + ". Wait for sync to complete before trading."@
}

/// "Connected to wrong chain! Expected Monad mainnet (143), got chain ID
/// `id`"
pub open spec fn spec_wrong_chain_error(chain_id: u64) -> Seq<char> {
    "Connected to wrong chain! Expected Monad mainnet ("@ + spec_decimal(
        MONAD_MAINNET_CHAIN_ID as nat,
    ) + "), got chain ID "@ + spec_decimal(chain_id as nat)
}

/// Whether trading may start on this node: not while it syncs, nor on
/// another chain. On success, says whether the latency (over 500 ms)
/// deserves a warning.
pub fn check_node_ready(health: &NodeHealth) -> (r: Result<bool, String>)
    ensures
        health.is_syncing ==> (r matches Err(e) && e@ == spec_syncing_error(health.block_number)),
        !health.is_syncing && !health.chain_id_valid ==> (r matches Err(e) && e@
            == spec_wrong_chain_error(health.chain_id)),
        !health.is_syncing && health.chain_id_valid ==> r == Ok::<bool, String>(
            health.rpc_latency_ms > MAX_HEALTHY_LATENCY_MS,
        ),
{
    if health.is_syncing {
        let mut s = String::new();
        push_str(&mut s, "Node is still syncing at block ");
        push_decimal(&mut s, health.block_number as u128);
        push_str(&mut s, ". Wait for sync to complete before trading.");
        return Err(s);
    }
    if !health.chain_id_valid {
        let mut s = String::new();
        push_str(&mut s, "Connected to wrong chain! Expected Monad mainnet (");
        push_decimal(&mut s, MONAD_MAINNET_CHAIN_ID as u128);
        push_str(&mut s, "), got chain ID ");
        push_decimal(&mut s, health.chain_id as u128);
        return Err(s);
    }
    Ok(health.rpc_latency_ms > MAX_HEALTHY_LATENCY_MS)
}

/// `p` occurs in `s` at position `i`.
pub open spec fn occurs_at(s: Seq<char>, p: Seq<char>, i: int) -> bool {
    0 <= i && i + p.len() <= s.len() && s.subrange(i, i + p.len()) == p
}

/// `p` occurs somewhere in `s`.
pub open spec fn spec_contains(s: Seq<char>, p: Seq<char>) -> bool {
    exists|i: int| #[trigger] occurs_at(s, p, i)
}

/// Whether `p` occurs in `s` at `i`.
pub(crate) fn matches_at(s: &Vec<char>, p: &Vec<char>, i: usize) -> (r: bool)
    requires
        i <= s@.len(),
    ensures
        r == occurs_at(s@, p@, i as int),
{
    let n = s.len();
    if n - i < p.len() {
        return false;
    }
    let mut k: usize = 0;
    while k < p.len()
        invariant
            n == s@.len(),
            i + p@.len() <= s@.len(),
            k <= p@.len(),
            forall|j: int| 0 <= j < k ==> s@[i + j] == p@[j],
        decreases p.len() - k,
    {
        if s[i + k] != p[k] {
            assert(s@.subrange(i as int, i + p@.len())[k as int] != p@[k as int]);
            return false;
        }
        k = k + 1;
    }
    assert(s@.subrange(i as int, i + p@.len()) =~= p@);
    true
}

/// Whether `p` occurs in `s`.
pub fn contains_str(s: &str, p: &str) -> (r: bool)
    ensures
        r == spec_contains(s@, p@),
{
    let sc = str_chars(s);
    let pc = str_chars(p);
    let n = sc.len();
    let mut i: usize = 0;
    while i < n
        invariant
            sc@ == s@,
            pc@ == p@,
            n == sc@.len(),
            i <= n,
            forall|j: int| 0 <= j < i ==> !#[trigger] occurs_at(s@, p@, j),
        decreases n - i,
    {
        if matches_at(&sc, &pc, i) {
            return true;
        }
        i = i + 1;
    }
    if matches_at(&sc, &pc, n) {
        return true;
    }
    assert forall|j: int| !#[trigger] occurs_at(s@, p@, j) by {
        if 0 <= j && j <= n {
        } else if j > n {
            assert(j + p@.len() > s@.len());
        }
    }
    false
}

/// Whether `s` starts with `p`.
pub fn starts_with_str(s: &str, p: &str) -> (r: bool)
    ensures
        r == occurs_at(s@, p@, 0),
{
    let sc = str_chars(s);
    let pc = str_chars(p);
    matches_at(&sc, &pc, 0)
}

/// An RPC address is local when it names the loopback host, or a private
/// network (10., 192.168., 172.) over plain http.
pub open spec fn spec_is_local_node(url: Seq<char>) -> bool {
    spec_contains(url, "127.0.0.1"@) || spec_contains(url, "localhost"@) || occurs_at(
        url,
        "http://10."@,
        0,
    ) || occurs_at(url, "http://192.168."@, 0) || occurs_at(url, "http://172."@, 0)
}

/// Whether the RPC address points to a local node.
pub fn detect_local_node(rpc_url: &str) -> (r: bool)
    ensures
        r == spec_is_local_node(rpc_url@),
{
    contains_str(rpc_url, "127.0.0.1") || contains_str(rpc_url, "localhost") || starts_with_str(
        rpc_url,
        "http://10.",
    ) || starts_with_str(rpc_url, "http://192.168.") || starts_with_str(rpc_url, "http://172.")
}

} // verus!
