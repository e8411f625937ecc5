//! Following blocks through Monad's commit states: reading block headers,
//! pairing the price snapshot taken when a block is proposed with the one
//! taken when it is finalized, and the counts over finished blocks.

use crate::text::{str_chars, str_equals};
use std::collections::HashMap;
use vstd::prelude::*;

verus! {

/// The commit states of a Monad block, earliest first.
#[derive(Debug, Clone, Copy, PartialEq, Eq, Structural)]
pub enum CommitState {
    /// Just proposed by the leader.
    Proposed,
    /// Has a quorum certificate.
    Voted,
    /// Quorum certificate on the certificate.
    Finalized,
    /// Merkle root confirmed, three blocks later.
    Verified,
}

/// The commit state a header names, if it names one.
pub open spec fn spec_commit_state_of(s: Seq<char>) -> Option<CommitState> {
    if s == "Proposed"@ {
        Some(CommitState::Proposed)
    } else if s == "Voted"@ {
        Some(CommitState::Voted)
    } else if s == "Finalized"@ {
        Some(CommitState::Finalized)
    } else if s == "Verified"@ {
        Some(CommitState::Verified)
    } else {
        None
    }
}

impl CommitState {
    /// The state named exactly by `s`.
    pub fn from_str(s: &str) -> (r: Option<CommitState>)
        ensures
            r == spec_commit_state_of(s@),
    {
        if str_equals(s, "Proposed") {
            Some(CommitState::Proposed)
        } else if str_equals(s, "Voted") {
            Some(CommitState::Voted)
        } else if str_equals(s, "Finalized") {
            Some(CommitState::Finalized)
        } else if str_equals(s, "Verified") {
            Some(CommitState::Verified)
        } else {
            None
        }
    }
}

/// A block header from the `monadNewHeads` subscription.
#[derive(Debug, Clone)]
pub struct MonadBlockHeader {
    /// Block number in hex.
    pub number: String,
    pub hash: String,
    /// "Proposed", "Voted", "Finalized" or "Verified".
    pub commit_state: String,
    /// Timestamp in hex.
    pub timestamp: String,
    pub miner: String,
}

/// `s` with every leading "0x" removed.
pub open spec fn spec_trim_0x(s: Seq<char>) -> Seq<char>
    decreases s.len(),
{
    if s.len() >= 2 && s[0] == '0' && s[1] == 'x' {
        spec_trim_0x(s.subrange(2, s.len() as int))
    } else {
        s
    }
}

/// The value of a hex digit (either case), or -1 for any other character.
pub open spec fn spec_hex_digit(c: char) -> int {
    if '0' <= c && c <= '9' {
        c as int - '0' as int
    } else if 'a' <= c && c <= 'f' {
        c as int - 'a' as int + 10
    } else if 'A' <= c && c <= 'F' {
        c as int - 'A' as int + 10
    } else {
        -1
    }
}

/// Every character is a hex digit.
pub open spec fn spec_all_hex(s: Seq<char>) -> bool {
    forall|i: int| 0 <= i < s.len() ==> spec_hex_digit(#[trigger] s[i]) >= 0
}

/// The number the first `k` hex digits of `s` spell.
pub open spec fn spec_hex_prefix(s: Seq<char>, k: int) -> int
    decreases k,
{
    if k <= 0 {
        0
    } else {
        spec_hex_prefix(s, k - 1) * 16 + spec_hex_digit(s[k - 1])
    }
}

/// `u64::from_str_radix(s, 16)`: an optional '+', then one or more hex
/// digits whose number fits 64 bits.
pub open spec fn spec_parse_hex_u64(s: Seq<char>) -> Option<u64> {
    let digits = if s.len() > 0 && s[0] == '+' {
        s.subrange(1, s.len() as int)
    } else {
        s
    };
    if digits.len() == 0 || !spec_all_hex(digits) || spec_hex_prefix(digits, digits.len() as int)
        > u64::MAX {
        None
    } else {
        Some(spec_hex_prefix(digits, digits.len() as int) as u64)
    }
}

/// The block number a header's hex number gives, 0 when it does not parse.
pub open spec fn spec_block_number(number: Seq<char>) -> u64 {
    match spec_parse_hex_u64(spec_trim_0x(number)) {
        Some(v) => v,
        None => 0,
    }
}

proof fn lemma_hex_prefix_monotone(s: Seq<char>, j: int, k: int)
    requires
        0 <= j <= k <= s.len(),
        spec_all_hex(s),
    ensures
        0 <= spec_hex_prefix(s, j) <= spec_hex_prefix(s, k),
    decreases k - j,
{
    if j < k {
        lemma_hex_prefix_monotone(s, j, k - 1);
        assert(spec_hex_digit(s[k - 1]) >= 0);
    } else {
        lemma_hex_prefix_nonneg(s, j);
    }
}

proof fn lemma_hex_prefix_nonneg(s: Seq<char>, k: int)
    requires
        0 <= k <= s.len(),
        spec_all_hex(s),
    ensures
        spec_hex_prefix(s, k) >= 0,
    decreases k,
{
    if k > 0 {
        lemma_hex_prefix_nonneg(s, k - 1);
        assert(spec_hex_digit(s[k - 1]) >= 0);
    }
}

proof fn lemma_hex_prefix_same(s: Seq<char>, t: Seq<char>, k: int)
    requires
        0 <= k <= s.len(),
        k <= t.len(),
        forall|i: int| 0 <= i < k ==> s[i] == t[i],
    ensures
        spec_hex_prefix(s, k) == spec_hex_prefix(t, k),
    decreases k,
{
    if k > 0 {
        lemma_hex_prefix_same(s, t, k - 1);
    }
}

/// The value of one hex digit, or -1.
fn hex_digit_value(c: char) -> (r: i32)
    ensures
        r == spec_hex_digit(c),
{
    if '0' <= c && c <= '9' {
        (c as u32 - '0' as u32) as i32
    } else if 'a' <= c && c <= 'f' {
        (c as u32 - 'a' as u32 + 10) as i32
    } else if 'A' <= c && c <= 'F' {
        (c as u32 - 'A' as u32 + 10) as i32
    } else {
        -1
    }
}

/// Parse a block number written in hex ("0x" prefixes ignored); anything
/// that does not parse gives 0.
pub fn parse_block_number(number: &str) -> (r: u64)
    ensures
        r == spec_block_number(number@),
{
    let cs = str_chars(number);
    let n = cs.len();
    let mut i: usize = 0;
    assert(cs@.subrange(0, n as int) == cs@);
    while n - i >= 2 && cs[i] == '0' && cs[i + 1] == 'x'
        invariant
            n == cs@.len(),
            i <= n,
            spec_trim_0x(cs@) == spec_trim_0x(cs@.subrange(i as int, n as int)),
        decreases n - i,
    {
        assert(cs@.subrange(i as int, n as int).subrange(2, (n - i) as int) == cs@.subrange(
            i + 2,
            n as int,
        ));
        i = i + 2;
    }
    let ghost trimmed = cs@.subrange(i as int, n as int);
    assert(spec_trim_0x(trimmed) == trimmed);
    assert(cs@ == number@);
    let mut start = i;
    if i < n && cs[i] == '+' {
        start = i + 1;
    }
    let ghost digits = cs@.subrange(start as int, n as int);
    assert(digits == (if trimmed.len() > 0 && trimmed[0] == '+' {
        trimmed.subrange(1, trimmed.len() as int)
    } else {
        trimmed
    }));
    if start == n {
        return 0;
    }
    let mut acc: u64 = 0;
    let mut k: usize = start;
    while k < n
        invariant
            n == cs@.len(),
            start <= k <= n,
            start < n,
            digits == cs@.subrange(start as int, n as int),
            forall|j: int| 0 <= j < k - start ==> spec_hex_digit(#[trigger] digits[j]) >= 0,
            acc == spec_hex_prefix(digits, k - start),
            spec_parse_hex_u64(spec_trim_0x(number@)) == spec_parse_hex_u64(trimmed),
            spec_parse_hex_u64(trimmed) == (if digits.len() == 0 || !spec_all_hex(digits)
                || spec_hex_prefix(digits, digits.len() as int) > u64::MAX {
                None
            } else {
                Some(spec_hex_prefix(digits, digits.len() as int) as u64)
            }),
        decreases n - k,
    {
        let d = hex_digit_value(cs[k]);
        assert(digits[k - start] == cs@[k as int]);
        if d < 0 {
            assert(!spec_all_hex(digits));
            return 0;
        }
        let next: u128 = acc as u128 * 16 + d as u128;
        if next > u64::MAX as u128 {
            proof {
                if spec_all_hex(digits) {
                    lemma_hex_prefix_monotone(digits, k - start + 1, digits.len() as int);
                }
            }
            return 0;
        }
        acc = next as u64;
        k = k + 1;
    }
    assert(spec_all_hex(digits));
    acc
}

/// The lowercase hex digit of a value below sixteen.
pub open spec fn spec_hex_char(d: int) -> char {
    if d == 0 {
        '0'
    } else if d == 1 {
        '1'
    } else if d == 2 {
        '2'
    } else if d == 3 {
        '3'
    } else if d == 4 {
        '4'
    } else if d == 5 {
        '5'
    } else if d == 6 {
        '6'
    } else if d == 7 {
        '7'
    } else if d == 8 {
        '8'
    } else if d == 9 {
        '9'
    } else if d == 10 {
        'a'
    } else if d == 11 {
        'b'
    } else if d == 12 {
        'c'
    } else if d == 13 {
        'd'
    } else if d == 14 {
        'e'
    } else {
        'f'
    }
}

/// A number written in lowercase hex, without leading zeros ("0" for zero).
pub open spec fn spec_hex_text(n: nat) -> Seq<char>
    decreases n,
{
    if n < 16 {
        seq![spec_hex_char(n as int)]
    } else {
        spec_hex_text(n / 16).push(spec_hex_char((n % 16) as int))
    }
}

/// Every lowercase hex digit reads back as its value.
proof fn lemma_hex_char_value(d: int)
    requires
        0 <= d < 16,
    ensures
        spec_hex_digit(spec_hex_char(d)) == d,
{
}

/// The hex text of `n` is made of hex digits and spells `n`.
proof fn lemma_hex_text_reads_back(n: nat)
    ensures
        spec_hex_text(n).len() >= 1,
        spec_all_hex(spec_hex_text(n)),
        spec_hex_prefix(spec_hex_text(n), spec_hex_text(n).len() as int) == n,
    decreases n,
{
    let t = spec_hex_text(n);
    if n < 16 {
        lemma_hex_char_value(n as int);
        assert(spec_hex_prefix(t, 0) == 0);
    } else {
        let q = spec_hex_text(n / 16);
        lemma_hex_text_reads_back(n / 16);
        lemma_hex_char_value((n % 16) as int);
        assert forall|i: int| 0 <= i < q.len() implies t[i] == q[i] by {}
        lemma_hex_prefix_same(t, q, q.len() as int);
        assert(spec_all_hex(t)) by {
            assert forall|i: int| 0 <= i < t.len() implies spec_hex_digit(#[trigger] t[i]) >= 0 by {
                if i < q.len() {
                    assert(t[i] == q[i]);
                }
            }
        }
        assert(spec_hex_prefix(t, t.len() as int) == spec_hex_prefix(t, q.len() as int) * 16
            + spec_hex_digit(t[q.len() as int]));
    }
}

/// A header whose number is "0x" followed by the lowercase hex of `n` (as
/// a node writes it) gives back `n`.
pub proof fn law_block_number_reads_hex(n: u64)
    ensures
        spec_block_number(seq!['0', 'x'] + spec_hex_text(n as nat)) == n,
{
    let t = spec_hex_text(n as nat);
    let s = seq!['0', 'x'] + t;
    lemma_hex_text_reads_back(n as nat);
    assert(s.subrange(2, s.len() as int) =~= t);
    assert(spec_hex_digit(t[0]) >= 0);
    if t.len() >= 2 {
        assert(spec_hex_digit(t[1]) >= 0);
    }
    assert(spec_trim_0x(t) == t);
    assert(spec_trim_0x(s) == t);
}

impl MonadBlockHeader {
    /// The block number (hex, "0x" prefixes ignored); 0 when it does not
    /// parse.
    pub fn block_number(&self) -> (r: u64)
        ensures
            r == spec_block_number(self.number@),
    {
        parse_block_number(self.number.as_str())
    }

    /// The commit state the header names.
    pub fn state(&self) -> (r: Option<CommitState>)
        ensures
            r == spec_commit_state_of(self.commit_state@),
    {
        CommitState::from_str(self.commit_state.as_str())
    }
}

/// Prices seen at one commit state of a block. `P` is the price record
/// kept for each pool.
#[derive(Debug, Clone)]
pub struct PriceSnapshot<P> {
    pub block_number: u64,
    pub commit_state: String,
    /// Milliseconds since the observation started.
    pub timestamp_ms: u128,
    pub wall_clock: String,
    pub prices: Vec<P>,
    /// Best net spread at this moment.
    pub best_spread_bps: i32,
    /// (buy pool, sell pool) of the best spread.
    pub best_pair: Option<(String, String)>,
}

/// One block followed through its commit states.
#[derive(Debug, Clone)]
pub struct BlockLifecycle<P> {
    pub block_number: u64,
    pub proposed: Option<PriceSnapshot<P>>,
    pub voted: Option<PriceSnapshot<P>>,
    pub finalized: Option<PriceSnapshot<P>>,
    pub verified: Option<PriceSnapshot<P>>,
    /// Set once both the proposed and the finalized snapshot are in.
    pub proposed_to_finalized_ms: Option<u128>,
    pub spread_at_proposed_bps: Option<i32>,
    pub spread_at_finalized_bps: Option<i32>,
    pub spread_delta_bps: Option<i32>,
    /// Whether the spread was still above 10 bps when finalized.
    pub spread_persisted: Option<bool>,
}

/// The spread (bps) above which a finalized spread counts as persisted.
pub const PERSISTED_SPREAD_BPS: i32 = 10;

/// A block is kept while it is fewer than this many blocks behind.
pub const LIFECYCLE_WINDOW: u64 = 20;

/// The lifecycle with its analysis filled in, when both the proposed and
/// the finalized snapshot are in: the time between them, the spread at
/// each, its change, and whether it stayed above 10 bps. Otherwise the
/// lifecycle as it is.
pub open spec fn spec_analyzed<P>(lc: BlockLifecycle<P>) -> BlockLifecycle<P> {
    if lc.proposed is Some && lc.finalized is Some {
        let p = lc.proposed->0;
        let f = lc.finalized->0;
        BlockLifecycle {
            proposed_to_finalized_ms: Some((f.timestamp_ms - p.timestamp_ms) as u128),
            spread_at_proposed_bps: Some(p.best_spread_bps),
            spread_at_finalized_bps: Some(f.best_spread_bps),
            spread_delta_bps: Some((f.best_spread_bps - p.best_spread_bps) as i32),
            spread_persisted: Some(f.best_spread_bps > PERSISTED_SPREAD_BPS),
            ..lc
        }
    } else {
        lc
    }
}

/// The lifecycle after a header in `state` brought `snapshot`.
pub open spec fn spec_apply_state<P>(
    lc: BlockLifecycle<P>,
    state: Seq<char>,
    snapshot: Option<PriceSnapshot<P>>,
) -> BlockLifecycle<P> {
    if state == "Proposed"@ {
        BlockLifecycle { proposed: if snapshot is Some { snapshot } else { lc.proposed }, ..lc }
    } else if state == "Finalized"@ {
        spec_analyzed(BlockLifecycle { finalized: if snapshot is Some { snapshot } else { lc.finalized }, ..lc })
    } else if state == "Voted"@ {
        BlockLifecycle { voted: snapshot, ..lc }
    } else if state == "Verified"@ {
        BlockLifecycle { verified: snapshot, ..lc }
    } else {
        lc
    }
}

impl<P> BlockLifecycle<P> {
    /// Both the proposed and the finalized snapshot are in.
    pub open spec fn spec_complete(self) -> bool {
        self.proposed is Some && self.finalized is Some
    }

    /// The analysis can be computed without a panic: the finalized snapshot
    /// is not older than the proposed one and the spread change fits.
    pub open spec fn spec_analysis_ok(self) -> bool {
        self.spec_complete() ==> {
            let p = self.proposed->0;
            let f = self.finalized->0;
            &&& p.timestamp_ms <= f.timestamp_ms
            &&& i32::MIN <= f.best_spread_bps - p.best_spread_bps <= i32::MAX
        }
    }

    /// A block with no snapshot yet.
    pub fn new(block_number: u64) -> (r: Self)
        ensures
            r.block_number == block_number,
            r.proposed is None,
            r.voted is None,
            r.finalized is None,
            r.verified is None,
            r.proposed_to_finalized_ms is None,
            r.spread_at_proposed_bps is None,
            r.spread_at_finalized_bps is None,
            r.spread_delta_bps is None,
            r.spread_persisted is None,
    {
        BlockLifecycle {
            block_number,
            proposed: None,
            voted: None,
            finalized: None,
            verified: None,
            proposed_to_finalized_ms: None,
            spread_at_proposed_bps: None,
            spread_at_finalized_bps: None,
            spread_delta_bps: None,
            spread_persisted: None,
        }
    }

    /// Whether both the proposed and the finalized snapshot are in.
    pub fn is_complete(&self) -> (r: bool)
        ensures
            r == self.spec_complete(),
    {
        self.proposed.is_some() && self.finalized.is_some()
    }

    /// With both snapshots in: the time between them, the spread at each,
    /// its change and whether it persisted above 10 bps. Otherwise nothing
    /// changes.
    pub fn compute_analysis(&mut self)
        requires
            old(self).spec_analysis_ok(),
        ensures
            *final(self) == spec_analyzed(*old(self)),
    {
        let mut times: Option<(u128, u128, i32, i32)> = None;
        match (&self.proposed, &self.finalized) {
            (Some(p), Some(f)) => {
                times = Some((p.timestamp_ms, f.timestamp_ms, p.best_spread_bps, f.best_spread_bps));
            },
            _ => {},
        }
        match times {
            Some((pt, ft, ps, fs)) => {
                self.proposed_to_finalized_ms = Some(ft - pt);
                self.spread_at_proposed_bps = Some(ps);
                self.spread_at_finalized_bps = Some(fs);
                self.spread_delta_bps = Some(fs - ps);
                self.spread_persisted = Some(fs > PERSISTED_SPREAD_BPS);
            },
            None => {},
        }
    }
}

/// The four state names differ from one another.
proof fn lemma_state_names_distinct()
    ensures
        "Proposed"@ != "Voted"@,
        "Proposed"@ != "Finalized"@,
        "Proposed"@ != "Verified"@,
        "Voted"@ != "Finalized"@,
        "Voted"@ != "Verified"@,
        "Finalized"@ != "Verified"@,
{
    reveal_strlit("Proposed");
    reveal_strlit("Voted");
    reveal_strlit("Finalized");
    reveal_strlit("Verified");
    assert("Proposed"@[0] != "Voted"@[0]);
    assert("Proposed"@[0] != "Finalized"@[0]);
    assert("Proposed"@[0] != "Verified"@[0]);
    assert("Voted"@[0] != "Finalized"@[0]);
    assert("Voted"@[1] != "Verified"@[1]);
    assert("Finalized"@[0] != "Verified"@[0]);
}

/// Whether a header in this state calls for a price snapshot (only the
/// proposed and the finalized states are priced).
pub fn snapshot_wanted(state: &str) -> (r: bool)
    ensures
        r == (state@ == "Proposed"@ || state@ == "Finalized"@),
{
    str_equals(state, "Proposed") || str_equals(state, "Finalized")
}

/// File a block header's state into its lifecycle. A proposed or
/// finalized header brings its price snapshot (none if pricing failed);
/// a voted or verified one brings a bare timestamped snapshot. A finalized
/// header that completes the lifecycle computes its analysis; the result
/// says whether it did.
pub fn apply_block_state<P>(lc: &mut BlockLifecycle<P>, state: &str, snapshot: Option<PriceSnapshot<P>>) -> (r: bool)
    requires
        state@ == "Finalized"@ ==> ({
            let after = BlockLifecycle {
                finalized: if snapshot is Some { snapshot } else { old(lc).finalized },
                ..*old(lc)
            };
            after.spec_analysis_ok()
        }),
    ensures
        *final(lc) == spec_apply_state(*old(lc), state@, snapshot),
        r == (state@ == "Finalized"@ && final(lc).spec_complete()),
{
    proof {
        lemma_state_names_distinct();
    }
    if str_equals(state, "Proposed") {
        match snapshot {
            Some(s) => {
                lc.proposed = Some(s);
            },
            None => {},
        }
        false
    } else if str_equals(state, "Finalized") {
        match snapshot {
            Some(s) => {
                lc.finalized = Some(s);
            },
            None => {},
        }
        if lc.is_complete() {
            lc.compute_analysis();
            true
        } else {
            false
        }
    } else if str_equals(state, "Voted") {
        lc.voted = snapshot;
        false
    } else if str_equals(state, "Verified") {
        lc.verified = snapshot;
        false
    } else {
        false
    }
}

/// Take the lifecycle of a block out of the open blocks (keyed by block
/// number), or start a new one if the block has none.
pub fn take_lifecycle<P>(open: &mut HashMap<u64, BlockLifecycle<P>>, block_number: u64) -> (r:
    BlockLifecycle<P>)
    ensures
        final(open)@ == old(open)@.remove(block_number),
        old(open)@.contains_key(block_number) ==> r == old(open)@[block_number],
        !old(open)@.contains_key(block_number) ==> r.block_number == block_number && r.proposed is None
            && r.voted is None && r.finalized is None && r.verified is None
            && r.proposed_to_finalized_ms is None && r.spread_at_proposed_bps is None
            && r.spread_at_finalized_bps is None && r.spread_delta_bps is None
            && r.spread_persisted is None,
{
    broadcast use vstd::std_specs::hash::group_hash_axioms;

    match open.remove(&block_number) {
        Some(lc) => lc,
        None => BlockLifecycle::new(block_number),
    }
}

/// Whether a stored block is kept: it is fewer than 20 blocks behind the
/// current one, or not behind it at all.
pub open spec fn spec_keep_block(current_block: u64, block: u64) -> bool {
    block + LIFECYCLE_WINDOW > current_block
}

/// Drop the lifecycles of blocks that are 20 or more blocks behind the
/// current one; those of newer blocks, and of blocks ahead of it, stay.
pub fn prune_lifecycles<P>(open: &mut HashMap<u64, BlockLifecycle<P>>, current_block: u64)
    ensures
        final(open)@ == old(open)@.restrict(
            old(open)@.dom().filter(|b: u64| spec_keep_block(current_block, b)),
        ),
{
    broadcast use vstd::std_specs::hash::group_hash_axioms;

    let mut stale: Vec<u64> = Vec::new();
    for b in it: open.keys()
        invariant
            forall|t: int|
                0 <= t < stale@.len() ==> open@.contains_key(#[trigger] stale@[t])
                    && !spec_keep_block(current_block, stale@[t]),
            forall|t: int|
                0 <= t < it.index() && !spec_keep_block(current_block, *it.seq()[t])
                    ==> stale@.contains(*it.seq()[t]),
    {
        let ghost before = stale@;
        if !(*b >= current_block || current_block - *b < LIFECYCLE_WINDOW) {
            stale.push(*b);
            assert(stale@[stale@.len() - 1] == *b);
        }
        assert forall|x: u64| before.contains(x) implies stale@.contains(x) by {
            let t = choose|t: int| 0 <= t < before.len() && before[t] == x;
            assert(stale@[t] == x);
        }
    }
    let ghost orig = open@;
    assert(forall|k: u64| orig.contains_key(k) && !spec_keep_block(current_block, k) ==> stale@.contains(k));
    assert(stale@.subrange(0, 0) =~= Seq::<u64>::empty());
    let mut i: usize = 0;
    while i < stale.len()
        invariant
            i <= stale@.len(),
            forall|t: int|
                0 <= t < stale@.len() ==> orig.contains_key(#[trigger] stale@[t])
                    && !spec_keep_block(current_block, stale@[t]),
            forall|k: u64| orig.contains_key(k) && !spec_keep_block(current_block, k) ==> stale@.contains(k),
            forall|k: u64|
                #[trigger] open@.contains_key(k) <==> (orig.contains_key(k) && !stale@.subrange(0, i as int).contains(k)),
            forall|k: u64| open@.contains_key(k) ==> #[trigger] open@[k] == orig[k],
        decreases stale.len() - i,
    {
        let ghost before = open@;
        let b = stale[i];
        open.remove(&b);
        assert(open@ == before.remove(b));
        let ghost done = stale@.subrange(0, i as int);
        let ghost now = stale@.subrange(0, i + 1);
        assert(now =~= done.push(b));
        assert forall|k: u64| now.contains(k) <==> (done.contains(k) || k == b) by {
            if now.contains(k) && k != b {
                let t = choose|t: int| 0 <= t < now.len() && now[t] == k;
                assert(done[t] == k);
            }
            if done.contains(k) {
                let t = choose|t: int| 0 <= t < done.len() && done[t] == k;
                assert(now[t] == k);
            }
            if k == b {
                assert(now[i as int] == k);
            }
        }
        i = i + 1;
    }
    assert(stale@.subrange(0, stale@.len() as int) =~= stale@);
    assert(open@ =~= orig.restrict(orig.dom().filter(|b: u64| spec_keep_block(current_block, b))));
}

/// Running totals over finished lifecycles, as mathematical numbers.
pub struct CountsModel {
    pub complete: int,
    pub with_spread: int,
    pub persisted: int,
    pub timed: int,
    pub time_sum: int,
    pub time_min: Option<int>,
    pub time_max: Option<int>,
    pub proposed_sum: int,
    pub finalized_sum: int,
    pub delta_sum: int,
    pub max_spread: Option<int>,
}

/// The smaller of an optional minimum and a value.
pub open spec fn opt_min(m: Option<int>, v: int) -> Option<int> {
    match m {
        Some(x) => Some(if v < x { v } else { x }),
        None => Some(v),
    }
}

/// The larger of an optional maximum and a value.
pub open spec fn opt_max(m: Option<int>, v: int) -> Option<int> {
    match m {
        Some(x) => Some(if v > x { v } else { x }),
        None => Some(v),
    }
}

/// `x` if present, else `d`.
pub open spec fn or_int<T>(x: Option<T>, v: spec_fn(T) -> int, d: int) -> int {
    match x {
        Some(t) => v(t),
        None => d,
    }
}

/// The totals after one more lifecycle: only complete ones count.
pub open spec fn spec_count_step<P>(m: CountsModel, lc: BlockLifecycle<P>) -> CountsModel {
    if !lc.spec_complete() {
        m
    } else {
        CountsModel {
            complete: m.complete + 1,
            with_spread: m.with_spread + (if or_int(lc.spread_at_proposed_bps, |x: i32| x as int, 0) > 10 {
                1int
            } else {
                0int
            }),
            persisted: m.persisted + (if or_int(lc.spread_at_proposed_bps, |x: i32| x as int, 0) > 10
                && lc.spread_persisted == Some(true) {
                1int
            } else {
                0int
            }),
            timed: m.timed + (if lc.proposed_to_finalized_ms is Some {
                1int
            } else {
                0int
            }),
            time_sum: m.time_sum + or_int(lc.proposed_to_finalized_ms, |x: u128| x as int, 0),
            time_min: match lc.proposed_to_finalized_ms {
                Some(t) => opt_min(m.time_min, t as int),
                None => m.time_min,
            },
            time_max: match lc.proposed_to_finalized_ms {
                Some(t) => opt_max(m.time_max, t as int),
                None => m.time_max,
            },
            proposed_sum: m.proposed_sum + or_int(lc.spread_at_proposed_bps, |x: i32| x as int, 0),
            finalized_sum: m.finalized_sum + or_int(lc.spread_at_finalized_bps, |x: i32| x as int, 0),
            delta_sum: m.delta_sum + or_int(lc.spread_delta_bps, |x: i32| x as int, 0),
            max_spread: match lc.spread_at_proposed_bps {
                Some(v) => opt_max(m.max_spread, v as int),
                None => m.max_spread,
            },
        }
    }
}

/// The totals over a list of finished lifecycles.
pub open spec fn spec_counts<P>(s: Seq<BlockLifecycle<P>>) -> CountsModel
    decreases s.len(),
{
    if s.len() == 0 {
        CountsModel {
            complete: 0,
            with_spread: 0,
            persisted: 0,
            timed: 0,
            time_sum: 0,
            time_min: None,
            time_max: None,
            proposed_sum: 0,
            finalized_sum: 0,
            delta_sum: 0,
            max_spread: None,
        }
    } else {
        spec_count_step(spec_counts(s.drop_last()), s.last())
    }
}

/// What the statistics of an observation run are computed from: counts,
/// extremes and sums over the complete lifecycles (averages are these sums
/// over the counts).
#[derive(Debug, Clone, Copy, PartialEq, Eq)]
pub struct LifecycleCounts {
    /// Open lifecycles, plus the complete ones when there are any.
    pub total_blocks_observed: u64,
    pub complete_lifecycles: u64,
    /// Complete lifecycles whose spread was above 10 bps when proposed.
    pub blocks_with_spread_gt_10bps: u64,
    /// Of those, the ones whose spread was still above 10 bps when
    /// finalized.
    pub blocks_where_spread_persisted: u64,
    /// Complete lifecycles with a proposed-to-finalized time.
    pub timed_lifecycles: u64,
    pub time_sum_ms: u128,
    /// Shortest and longest time, 0 when there is none.
    pub min_proposed_to_finalized_ms: u128,
    pub max_proposed_to_finalized_ms: u128,
    pub proposed_spread_sum_bps: i128,
    pub finalized_spread_sum_bps: i128,
    pub spread_decay_sum_bps: i128,
    /// Largest spread when proposed, 0 when there is none.
    pub max_spread_seen_bps: i32,
}

/// The counts over finished lifecycles, given how many are still open.
/// With no complete lifecycle everything is zero but the observed blocks,
/// which are the open ones.
pub fn lifecycle_counts<P>(completed: &Vec<BlockLifecycle<P>>, open_count: usize) -> (r: LifecycleCounts)
    requires
        spec_counts(completed@).time_sum <= u128::MAX,
        open_count + completed@.len() <= u64::MAX,
    ensures
        ({
            let m = spec_counts(completed@);
            &&& r.complete_lifecycles == m.complete
            &&& r.total_blocks_observed == open_count + m.complete
            &&& m.complete > 0 ==> {
                &&& r.blocks_with_spread_gt_10bps == m.with_spread
                &&& r.blocks_where_spread_persisted == m.persisted
                &&& r.timed_lifecycles == m.timed
                &&& r.time_sum_ms == m.time_sum
                &&& r.min_proposed_to_finalized_ms == or_int(m.time_min, |x: int| x, 0)
                &&& r.max_proposed_to_finalized_ms == or_int(m.time_max, |x: int| x, 0)
                &&& r.proposed_spread_sum_bps == m.proposed_sum
                &&& r.finalized_spread_sum_bps == m.finalized_sum
                &&& r.spread_decay_sum_bps == m.delta_sum
                &&& r.max_spread_seen_bps == or_int(m.max_spread, |x: int| x, 0)
            }
            &&& m.complete == 0 ==> r == (LifecycleCounts {
                total_blocks_observed: open_count as u64,
                complete_lifecycles: 0,
                blocks_with_spread_gt_10bps: 0,
                blocks_where_spread_persisted: 0,
                timed_lifecycles: 0,
                time_sum_ms: 0,
                min_proposed_to_finalized_ms: 0,
                max_proposed_to_finalized_ms: 0,
                proposed_spread_sum_bps: 0,
                finalized_spread_sum_bps: 0,
                spread_decay_sum_bps: 0,
                max_spread_seen_bps: 0,
            })
        }),
{
    let ghost s = completed@;
    let mut complete: u64 = 0;
    let mut with_spread: u64 = 0;
    let mut persisted: u64 = 0;
    let mut timed: u64 = 0;
    let mut time_sum: u128 = 0;
    let mut time_min: Option<u128> = None;
    let mut time_max: Option<u128> = None;
    let mut proposed_sum: i128 = 0;
    let mut finalized_sum: i128 = 0;
    let mut delta_sum: i128 = 0;
    let mut max_spread: Option<i32> = None;
    let mut i: usize = 0;
    proof {
        lemma_counts_bounds(s, s.len() as int);
    }
    while i < completed.len()
        invariant
            s == completed@,
            i <= s.len(),
            spec_counts(s).time_sum <= u128::MAX,
            open_count + s.len() <= u64::MAX,
            ({
                let m = spec_counts(s.take(i as int));
                &&& complete == m.complete
                &&& with_spread == m.with_spread
                &&& persisted == m.persisted
                &&& timed == m.timed
                &&& time_sum == m.time_sum
                &&& (match time_min { Some(t) => m.time_min == Some(t as int), None => m.time_min is None })
                &&& (match time_max { Some(t) => m.time_max == Some(t as int), None => m.time_max is None })
                &&& proposed_sum == m.proposed_sum
                &&& finalized_sum == m.finalized_sum
                &&& delta_sum == m.delta_sum
                &&& (match max_spread { Some(t) => m.max_spread == Some(t as int), None => m.max_spread is None })
                &&& m.complete <= i
                &&& m.with_spread <= m.complete
                &&& m.persisted <= m.complete
                &&& m.timed <= m.complete
                &&& -0x8000_0000 * i <= m.proposed_sum <= 0x8000_0000 * i
                &&& -0x8000_0000 * i <= m.finalized_sum <= 0x8000_0000 * i
                &&& -0x8000_0000 * i <= m.delta_sum <= 0x8000_0000 * i
            }),
        decreases s.len() - i,
    {
        proof {
            assert(s.take(i + 1).drop_last() == s.take(i as int));
            assert(s.take(i + 1).last() == s[i as int]);
            lemma_counts_prefix_le(s, i + 1);
        }
        let lc = &completed[i];
        if lc.is_complete() {
            complete = complete + 1;
            let sp: i32 = match lc.spread_at_proposed_bps { Some(v) => v, None => 0 };
            if sp > 10 {
                with_spread = with_spread + 1;
            }
            if sp > 10 && lc.spread_persisted == Some(true) {
                persisted = persisted + 1;
            }
            match lc.proposed_to_finalized_ms {
                Some(t) => {
                    timed = timed + 1;
                    time_sum = time_sum + t;
                    time_min = match time_min {
                        Some(x) => Some(if t < x { t } else { x }),
                        None => Some(t),
                    };
                    time_max = match time_max {
                        Some(x) => Some(if t > x { t } else { x }),
                        None => Some(t),
                    };
                },
                None => {},
            }
            match lc.spread_at_proposed_bps {
                Some(v) => {
                    proposed_sum = proposed_sum + v as i128;
                    max_spread = match max_spread {
                        Some(x) => Some(if v > x { v } else { x }),
                        None => Some(v),
                    };
                },
                None => {},
            }
            match lc.spread_at_finalized_bps {
                Some(v) => {
                    finalized_sum = finalized_sum + v as i128;
                },
                None => {},
            }
            match lc.spread_delta_bps {
                Some(v) => {
                    delta_sum = delta_sum + v as i128;
                },
                None => {},
            }
        }
        i = i + 1;
    }
    assert(s.take(s.len() as int) == s);
    if complete == 0 {
        return LifecycleCounts {
            total_blocks_observed: open_count as u64,
            complete_lifecycles: 0,
            blocks_with_spread_gt_10bps: 0,
            blocks_where_spread_persisted: 0,
            timed_lifecycles: 0,
            time_sum_ms: 0,
            min_proposed_to_finalized_ms: 0,
            max_proposed_to_finalized_ms: 0,
            proposed_spread_sum_bps: 0,
            finalized_spread_sum_bps: 0,
            spread_decay_sum_bps: 0,
            max_spread_seen_bps: 0,
        };
    }
    LifecycleCounts {
        total_blocks_observed: open_count as u64 + complete,
        complete_lifecycles: complete,
        blocks_with_spread_gt_10bps: with_spread,
        blocks_where_spread_persisted: persisted,
        timed_lifecycles: timed,
        time_sum_ms: time_sum,
        min_proposed_to_finalized_ms: match time_min { Some(t) => t, None => 0 },
        max_proposed_to_finalized_ms: match time_max { Some(t) => t, None => 0 },
        proposed_spread_sum_bps: proposed_sum,
        finalized_spread_sum_bps: finalized_sum,
        spread_decay_sum_bps: delta_sum,
        max_spread_seen_bps: match max_spread { Some(t) => t, None => 0 },
    }
}

/// The time sum only grows along the list.
proof fn lemma_counts_prefix_le<P>(s: Seq<BlockLifecycle<P>>, k: int)
    requires
        0 <= k <= s.len(),
    ensures
        0 <= spec_counts(s.take(k)).time_sum <= spec_counts(s).time_sum,
    decreases s.len() - k,
{
    lemma_counts_bounds(s.take(k), k);
    if k < s.len() {
        lemma_counts_prefix_le(s, k + 1);
        assert(s.take(k + 1).drop_last() == s.take(k));
    } else {
        assert(s.take(k) == s);
    }
}

/// Counts stay within the number of lifecycles, the time sum is not
/// negative, and each spread sum is within 2^31 per lifecycle.
proof fn lemma_counts_bounds<P>(s: Seq<BlockLifecycle<P>>, n: int)
    requires
        n == s.len(),
    ensures
        0 <= spec_counts(s).complete <= n,
        0 <= spec_counts(s).time_sum,
    decreases s.len(),
{
    if s.len() > 0 {
        lemma_counts_bounds(s.drop_last(), n - 1);
    }
}

} // verus!
