//! Node connection settings: a local node gets aggressive polling and
//! tight gas buffers, a remote one conservative settings.

use crate::health::{contains_str, detect_local_node, matches_at, occurs_at, spec_contains, spec_is_local_node};
use crate::text::{push_char, push_chars, str_chars};
use vstd::prelude::*;

verus! {

/// Settings for the node the bot talks to.
#[derive(Debug, Clone)]
pub struct NodeConfig {
    /// Whether the node is local (enables aggressive settings).
    pub is_local: bool,
    /// HTTP RPC endpoint.
    pub rpc_url: String,
    /// WebSocket endpoint.
    pub ws_url: String,
    /// Milliseconds between price polls.
    pub poll_interval_ms: u64,
    /// Milliseconds between receipt polls.
    pub receipt_poll_interval_ms: u64,
    /// Gas limit multiplier in hundredths (110 is a 10% buffer).
    pub gas_buffer_pct: u64,
    /// Whether block confirmations are skipped.
    pub skip_block_wait: bool,
    /// Calls per multicall batch.
    pub multicall_batch_size: usize,
}

/// `s` with every occurrence of `pat` replaced by `rep`, matches taken left
/// to right without overlap (`s` itself for an empty pattern).
pub open spec fn spec_replace_all(s: Seq<char>, pat: Seq<char>, rep: Seq<char>) -> Seq<char>
    decreases s.len(),
{
    if pat.len() == 0 || s.len() == 0 {
        s
    } else if occurs_at(s, pat, 0) {
        rep + spec_replace_all(s.skip(pat.len() as int), pat, rep)
    } else {
        seq![s[0]] + spec_replace_all(s.skip(1), pat, rep)
    }
}

/// `s` with every occurrence of a non-empty `pat` replaced by `rep`, as
/// `str::replace` does.
pub fn replace_all(s: &str, pat: &str, rep: &str) -> (r: String)
    requires
        pat@.len() > 0,
    ensures
        r@ == spec_replace_all(s@, pat@, rep@),
{
    let sc = str_chars(s);
    let pc = str_chars(pat);
    let rc = str_chars(rep);
    let n = sc.len();
    let m = pc.len();
    let mut out = String::new();
    let mut i: usize = 0;
    assert(s@.skip(0) =~= s@);
    assert(out@ + spec_replace_all(s@, pat@, rep@) =~= spec_replace_all(s@, pat@, rep@));
    while i < n
        invariant
            sc@ == s@,
            pc@ == pat@,
            rc@ == rep@,
            n == sc@.len(),
            m == pc@.len(),
            m > 0,
            i <= n,
            spec_replace_all(s@, pat@, rep@) == out@ + spec_replace_all(s@.skip(i as int), pat@, rep@),
        decreases n - i,
    {
        let ghost rest = s@.skip(i as int);
        let ghost before = out@;
        assert(rest.len() > 0);
        if matches_at(&sc, &pc, i) {
            proof {
                assert(rest.subrange(0, m as int) =~= s@.subrange(i as int, i + m));
                assert(occurs_at(rest, pat@, 0));
                assert(rest.skip(m as int) =~= s@.skip(i + m));
            }
            push_chars(&mut out, &rc);
            i = i + m;
        } else {
            proof {
                if occurs_at(rest, pat@, 0) {
                    assert(rest.subrange(0, m as int) =~= s@.subrange(i as int, i + m));
                }
                assert(rest.skip(1) =~= s@.skip(i + 1));
                assert(rest[0] == s@[i as int]);
            }
            push_char(&mut out, sc[i]);
            i = i + 1;
        }
    }
    assert(s@.skip(n as int) =~= Seq::<char>::empty());
    out
}

/// The WebSocket endpoint that goes with an RPC endpoint: a local node's
/// port 8081, else the RPC address with its scheme made a WebSocket one.
pub open spec fn spec_derived_ws_url(rpc_url: Seq<char>) -> Seq<char> {
    if spec_contains(rpc_url, "127.0.0.1"@) || spec_contains(rpc_url, "localhost"@) {
        "ws://127.0.0.1:8081"@
    } else {
        spec_replace_all(spec_replace_all(rpc_url, "https://"@, "wss://"@), "http://"@, "ws://"@)
    }
}

/// The WebSocket endpoint that goes with an RPC endpoint.
pub fn derive_ws_url(rpc_url: &str) -> (r: String)
    ensures
        r@ == spec_derived_ws_url(rpc_url@),
{
    if contains_str(rpc_url, "127.0.0.1") || contains_str(rpc_url, "localhost") {
        return "ws://127.0.0.1:8081".to_string();
    }
    proof {
        reveal_strlit("https://");
        reveal_strlit("http://");
    }
    let secure = replace_all(rpc_url, "https://", "wss://");
    replace_all(secure.as_str(), "http://", "ws://")
}

/// The settings for a node: a local one polls every 50 ms (receipts every
/// 2 ms), buffers gas by 10%, skips block waits and batches 100 calls; a
/// remote one polls every second (receipts every 100 ms), buffers gas by
/// 15%, waits for blocks and batches 50 calls.
pub open spec fn spec_node_config(c: NodeConfig, rpc_url: Seq<char>, ws_url: Seq<char>, is_local: bool) -> bool {
    &&& c.is_local == is_local
    &&& c.rpc_url@ == rpc_url
    &&& c.ws_url@ == ws_url
    &&& c.poll_interval_ms == if is_local { 50u64 } else { 1000u64 }
    &&& c.receipt_poll_interval_ms == if is_local { 2u64 } else { 100u64 }
    &&& c.gas_buffer_pct == if is_local { 110u64 } else { 115u64 }
    &&& c.skip_block_wait == is_local
    &&& c.multicall_batch_size == if is_local { 100usize } else { 50usize }
}

/// The settings from the RPC endpoint and, when set, the WebSocket one; the
/// node is local by its address.
pub fn node_config(rpc_url: String, ws_url: Option<String>) -> (r: NodeConfig)
    ensures
        spec_node_config(
            r,
            rpc_url@,
            match ws_url {
                Some(w) => w@,
                None => spec_derived_ws_url(rpc_url@),
            },
            spec_is_local_node(rpc_url@),
        ),
{
    let ws = match ws_url {
        Some(w) => w,
        None => derive_ws_url(rpc_url.as_str()),
    };
    let is_local = detect_local_node(rpc_url.as_str());
    if is_local {
        NodeConfig {
            is_local: true,
            rpc_url,
            ws_url: ws,
            poll_interval_ms: 50,
            receipt_poll_interval_ms: 2,
            gas_buffer_pct: 110,
            skip_block_wait: true,
            multicall_batch_size: 100,
        }
    } else {
        NodeConfig {
            is_local: false,
            rpc_url,
            ws_url: ws,
            poll_interval_ms: 1000,
            receipt_poll_interval_ms: 100,
            gas_buffer_pct: 115,
            skip_block_wait: false,
            multicall_batch_size: 50,
        }
    }
}

} // verus!
