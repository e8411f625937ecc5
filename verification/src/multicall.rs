//! Batched price reads through Multicall3: which answers belong together,
//! and how a long list of calls is split into batches.
//!
//! An LFJ pool is priced from two calls, `getActiveId()` and
//! `getBinStep()`; the second call's name is the pool's name with
//! "_binStep" appended. The answers are paired by pool name.

use crate::address::Address;
use crate::lfj::{decode_active_id_response, decode_bin_step_response, spec_active_id, spec_bin_step};
use crate::text::{push_chars, str_chars};
use vstd::prelude::*;

verus! {

/// What a price call asks a pool.
#[derive(Debug, Clone, Copy, PartialEq, Eq, Structural)]
pub enum CallType {
    /// `slot0()` of a V3-style pool.
    V3Slot0,
    /// `getActiveId()` of an LFJ pair.
    LfjActiveId,
    /// `getBinStep()` of an LFJ pair.
    LfjBinStep,
    /// `getReserves()` of a Monday Trade pool.
    MondayReserves,
}

/// One call of a price batch.
#[derive(Debug, Clone)]
pub struct PriceCall {
    pub pool_name: String,
    pub pool_address: Address,
    pub calldata: Vec<u8>,
    pub fee_bps: u32,
    pub call_type: CallType,
}

/// The answer Multicall3 gives for one call.
#[derive(Debug, Clone)]
pub struct CallResult {
    pub success: bool,
    pub return_data: Vec<u8>,
}

/// The two readings of an LFJ pool that its price is computed from.
#[derive(Debug, Clone)]
pub struct LfjReading {
    pub pool_name: String,
    pub active_id: u32,
    pub bin_step: u16,
    pub fee_bps: u32,
}

/// The suffix that marks the bin step call of an LFJ pool.
pub open spec fn bin_step_suffix() -> Seq<char> {
    seq!['_', 'b', 'i', 'n', 'S', 't', 'e', 'p']
}

/// A call name without its "_binStep" suffix (unchanged if it has none).
pub open spec fn spec_strip_bin_step(name: Seq<char>) -> Seq<char> {
    if name.len() >= 8 && name.subrange(name.len() - 8, name.len() as int) == bin_step_suffix() {
        name.subrange(0, name.len() - 8)
    } else {
        name
    }
}

/// The pool name of a bin step call: its name without "_binStep".
pub fn strip_bin_step(name: &str) -> (r: String)
    ensures
        r@ == spec_strip_bin_step(name@),
{
    let cs = str_chars(name);
    let n = cs.len();
    let suffix = ['_', 'b', 'i', 'n', 'S', 't', 'e', 'p'];
    let mut has_suffix = n >= 8;
    if has_suffix {
        let mut k: usize = 0;
        while k < 8
            invariant
                n == cs@.len(),
                n >= 8,
                k <= 8,
                suffix@ == bin_step_suffix(),
                has_suffix == (forall|j: int| 0 <= j < k ==> cs@[n - 8 + j] == bin_step_suffix()[j]),
            decreases 8 - k,
        {
            if cs[n - 8 + k] != suffix[k] {
                has_suffix = false;
            }
            k = k + 1;
        }
        assert(has_suffix == (cs@.subrange(n - 8, n as int) == bin_step_suffix())) by {
            if has_suffix {
                assert(cs@.subrange(n - 8, n as int) =~= bin_step_suffix());
            } else {
                if cs@.subrange(n - 8, n as int) == bin_step_suffix() {
                    assert(forall|j: int| 0 <= j < 8 ==> cs@[n - 8 + j] == #[trigger] cs@.subrange(n - 8, n as int)[j]);
                }
            }
        }
    }
    let keep = if has_suffix { n - 8 } else { n };
    let mut prefix: Vec<char> = Vec::new();
    let mut i: usize = 0;
    while i < keep
        invariant
            keep <= n,
            n == cs@.len(),
            i <= keep,
            prefix@ == cs@.subrange(0, i as int),
        decreases keep - i,
    {
        prefix.push(cs[i]);
        i = i + 1;
    }
    let mut r = String::new();
    push_chars(&mut r, &prefix);
    assert(cs@ == name@);
    assert(r@ == cs@.subrange(0, keep as int));
    if !has_suffix {
        assert(cs@.subrange(0, n as int) == cs@);
    }
    r
}

/// Entries keyed by name: the names differ and the entries hold exactly
/// the map.
pub open spec fn represents<V>(entries: Seq<(String, V)>, m: Map<Seq<char>, V>) -> bool {
    &&& forall|j: int| 0 <= j < entries.len() ==> #[trigger] m.contains_key(entries[j].0@) && m[entries[j].0@] == entries[j].1
    &&& forall|name: Seq<char>| #[trigger] m.contains_key(name) ==> exists|j: int| 0 <= j < entries.len() && entries[j].0@ == name
    &&& forall|i: int, j: int| 0 <= i < j < entries.len() ==> (#[trigger] entries[i]).0@ != (#[trigger] entries[j]).0@
}

/// Set the value of a name: replace its entry, or add one.
fn upsert<V: Copy>(entries: &mut Vec<(String, V)>, name: String, v: V, Ghost(m): Ghost<Map<Seq<char>, V>>)
    requires
        represents(old(entries)@, m),
    ensures
        represents(final(entries)@, m.insert(name@, v)),
{
    let mut j: usize = 0;
    while j < entries.len()
        invariant
            j <= entries@.len(),
            entries@ == old(entries)@,
            represents(old(entries)@, m),
            forall|k: int| 0 <= k < j ==> (#[trigger] entries@[k]).0@ != name@,
        decreases entries.len() - j,
    {
        if entries[j].0 == name {
            let ghost before = entries@;
            let _old = entries.remove(j);
            entries.insert(j, (name, v));
            proof {
                assert(entries@ == before.update(j as int, (name, v)));
                let m2 = m.insert(name@, v);
                assert forall|name2: Seq<char>| #[trigger] m2.contains_key(name2) implies exists|k: int|
                    0 <= k < entries@.len() && entries@[k].0@ == name2 by {
                    if name2 == name@ {
                        assert(entries@[j as int].0@ == name2);
                    } else {
                        assert(m.contains_key(name2));
                        let k = choose|k: int| 0 <= k < before.len() && before[k].0@ == name2;
                        assert(before[j as int].0@ == name@);
                        assert(k != j);
                        assert(entries@[k] == before[k]);
                        assert(entries@[k].0@ == name2);
                    }
                }
                assert forall|a: int, b: int| 0 <= a < b < entries@.len() implies (#[trigger] entries@[a]).0@
                    != (#[trigger] entries@[b]).0@ by {
                    if a != j && b != j {
                        assert(before[a] == entries@[a] && before[b] == entries@[b]);
                    } else if a == j {
                        assert(before[a].0@ == name@);
                        assert(before[a].0@ != before[b].0@);
                    } else {
                        assert(before[b].0@ == name@);
                        assert(before[a].0@ != before[b].0@);
                    }
                }
            }
            return;
        }
        j = j + 1;
    }
    let ghost before = entries@;
    entries.push((name, v));
    proof {
        let m2 = m.insert(name@, v);
        assert forall|name2: Seq<char>| #[trigger] m2.contains_key(name2) implies exists|k: int|
            0 <= k < entries@.len() && entries@[k].0@ == name2 by {
            if name2 == name@ {
                assert(entries@[before.len() as int].0@ == name2);
            } else {
                assert(m.contains_key(name2));
                let k = choose|k: int| 0 <= k < before.len() && before[k].0@ == name2;
                assert(entries@[k] == before[k]);
                assert(entries@[k].0@ == name2);
            }
        }
        assert forall|j: int| 0 <= j < entries@.len() implies #[trigger] m2.contains_key(entries@[j].0@)
            && m2[entries@[j].0@] == entries@[j].1 by {
            if j < before.len() {
                assert(entries@[j] == before[j]);
                assert(before[j].0@ != name@);
            }
        }
    }
}

/// The active bin ids (with their pool's fee) that the first `k` answers
/// give, by pool name; a later answer for the same pool replaces an
/// earlier one.
pub open spec fn spec_active_map(calls: Seq<PriceCall>, results: Seq<CallResult>, k: int) -> Map<Seq<char>, (u32, u32)>
    decreases k,
{
    if k <= 0 {
        Map::empty()
    } else {
        let m = spec_active_map(calls, results, k - 1);
        let c = calls[k - 1];
        let r = results[k - 1];
        if r.success && c.call_type == CallType::LfjActiveId && spec_active_id(r.return_data@) is Some {
            m.insert(c.pool_name@, (spec_active_id(r.return_data@)->0, c.fee_bps))
        } else {
            m
        }
    }
}

/// The bin steps that the first `k` answers give, by pool name (the bin
/// step call's name without "_binStep").
pub open spec fn spec_bin_map(calls: Seq<PriceCall>, results: Seq<CallResult>, k: int) -> Map<Seq<char>, u16>
    decreases k,
{
    if k <= 0 {
        Map::empty()
    } else {
        let m = spec_bin_map(calls, results, k - 1);
        let c = calls[k - 1];
        let r = results[k - 1];
        if r.success && c.call_type == CallType::LfjBinStep && spec_bin_step(r.return_data@) is Some {
            m.insert(spec_strip_bin_step(c.pool_name@), spec_bin_step(r.return_data@)->0)
        } else {
            m
        }
    }
}

/// Pair the LFJ answers of a batch: one reading per pool that has both a
/// decoded active bin id and a decoded bin step. Failed calls and answers
/// that do not decode are skipped; other call types are not looked at.
pub fn collect_lfj_readings(calls: &Vec<PriceCall>, results: &Vec<CallResult>) -> (r: Vec<LfjReading>)
    requires
        results@.len() <= calls@.len(),
    ensures
        ({
            let am = spec_active_map(calls@, results@, results@.len() as int);
            let bm = spec_bin_map(calls@, results@, results@.len() as int);
            &&& forall|i: int| 0 <= i < r@.len() ==> {
                let x = #[trigger] r@[i];
                &&& am.contains_key(x.pool_name@)
                &&& am[x.pool_name@] == (x.active_id, x.fee_bps)
                &&& bm.contains_key(x.pool_name@)
                &&& bm[x.pool_name@] == x.bin_step
            }
            &&& forall|name: Seq<char>| am.contains_key(name) && bm.contains_key(name) ==> exists|i: int|
                0 <= i < r@.len() && (#[trigger] r@[i]).pool_name@ == name
            &&& forall|i: int, j: int| 0 <= i < j < r@.len() ==> (#[trigger] r@[i]).pool_name@ != (
            #[trigger] r@[j]).pool_name@
        }),
{
    let mut actives: Vec<(String, (u32, u32))> = Vec::new();
    let mut bins: Vec<(String, u16)> = Vec::new();
    let mut i: usize = 0;
    while i < results.len()
        invariant
            results@.len() <= calls@.len(),
            i <= results@.len(),
            represents(actives@, spec_active_map(calls@, results@, i as int)),
            represents(bins@, spec_bin_map(calls@, results@, i as int)),
        decreases results.len() - i,
    {
        let res = &results[i];
        let call = &calls[i];
        if res.success {
            match call.call_type {
                CallType::LfjActiveId => {
                    match decode_active_id_response(res.return_data.as_slice()) {
                        Ok(active_id) => {
                            upsert(
                                &mut actives,
                                call.pool_name.clone(),
                                (active_id, call.fee_bps),
                                Ghost(spec_active_map(calls@, results@, i as int)),
                            );
                        },
                        Err(_) => {},
                    }
                },
                CallType::LfjBinStep => {
                    match decode_bin_step_response(res.return_data.as_slice()) {
                        Ok(bin_step) => {
                            let name = strip_bin_step(call.pool_name.as_str());
                            upsert(
                                &mut bins,
                                name,
                                bin_step,
                                Ghost(spec_bin_map(calls@, results@, i as int)),
                            );
                        },
                        Err(_) => {},
                    }
                },
                _ => {},
            }
        }
        i = i + 1;
    }
    let ghost am = spec_active_map(calls@, results@, results@.len() as int);
    let ghost bm = spec_bin_map(calls@, results@, results@.len() as int);
    let mut r: Vec<LfjReading> = Vec::new();
    let mut a: usize = 0;
    while a < actives.len()
        invariant
            a <= actives@.len(),
            represents(actives@, am),
            represents(bins@, bm),
            forall|i: int| 0 <= i < r@.len() ==> {
                let x = #[trigger] r@[i];
                &&& am.contains_key(x.pool_name@)
                &&& am[x.pool_name@] == (x.active_id, x.fee_bps)
                &&& bm.contains_key(x.pool_name@)
                &&& bm[x.pool_name@] == x.bin_step
            },
            forall|k: int| 0 <= k < a && #[trigger] bm.contains_key(actives@[k].0@) ==> exists|i: int|
                0 <= i < r@.len() && (#[trigger] r@[i]).pool_name@ == actives@[k].0@,
            forall|i: int| 0 <= i < r@.len() ==> exists|k: int| 0 <= k < a && (#[trigger] r@[i]).pool_name@
                == actives@[k].0@,
            forall|i: int, j: int| 0 <= i < j < r@.len() ==> (#[trigger] r@[i]).pool_name@ != (
            #[trigger] r@[j]).pool_name@,
        decreases actives.len() - a,
    {
        let mut b: usize = 0;
        let mut found: Option<u16> = None;
        while b < bins.len()
            invariant
                b <= bins@.len(),
                a < actives@.len(),
                found matches Some(step) ==> bm.contains_key(actives@[a as int].0@) && bm[actives@[a as int].0@] == step,
                found is None ==> forall|k: int| 0 <= k < b ==> (#[trigger] bins@[k]).0@ != actives@[a as int].0@,
                represents(bins@, bm),
            decreases bins.len() - b,
        {
            if found.is_none() && bins[b].0 == actives[a].0 {
                proof {
                    assert(bm.contains_key(bins@[b as int].0@));
                }
                found = Some(bins[b].1);
            }
            b = b + 1;
        }
        match found {
            Some(step) => {
                let ghost before = r@;
                let (active_id, fee_bps) = actives[a].1;
                r.push(LfjReading {
                    pool_name: actives[a].0.clone(),
                    active_id,
                    bin_step: step,
                    fee_bps,
                });
                proof {
                    assert(r@[before.len() as int].pool_name@ == actives@[a as int].0@);
                    assert forall|i: int| 0 <= i < r@.len() implies exists|k: int| 0 <= k < a + 1
                        && (#[trigger] r@[i]).pool_name@ == actives@[k].0@ by {
                        if i < before.len() {
                            assert(r@[i] == before[i]);
                        } else {
                            assert(r@[i].pool_name@ == actives@[a as int].0@);
                        }
                    }
                    assert forall|i: int, j: int| 0 <= i < j < r@.len() implies (#[trigger] r@[i]).pool_name@
                        != (#[trigger] r@[j]).pool_name@ by {
                        if j == before.len() {
                            assert(r@[i] == before[i]);
                            let k = choose|k: int| 0 <= k < a && before[i].pool_name@ == actives@[k].0@;
                            assert(actives@[k].0@ != actives@[a as int].0@);
                        } else {
                            assert(r@[i] == before[i] && r@[j] == before[j]);
                        }
                    }
                    assert forall|k: int| 0 <= k < a + 1 && #[trigger] bm.contains_key(actives@[k].0@)
                        implies exists|i: int| 0 <= i < r@.len() && (#[trigger] r@[i]).pool_name@ == actives@[k].0@ by {
                        if k < a {
                            let i = choose|i: int| 0 <= i < before.len() && before[i].pool_name@ == actives@[k].0@;
                            assert(r@[i] == before[i]);
                        } else {
                            assert(r@[before.len() as int].pool_name@ == actives@[k].0@);
                        }
                    }
                }
            },
            None => {
                proof {
                    if bm.contains_key(actives@[a as int].0@) {
                        let k = choose|k: int| 0 <= k < bins@.len() && bins@[k].0@ == actives@[a as int].0@;
                        assert(bins@[k].0@ != actives@[a as int].0@);
                    }
                }
            },
        }
        a = a + 1;
    }
    proof {
        assert forall|name: Seq<char>| am.contains_key(name) && bm.contains_key(name) implies exists|i: int|
            0 <= i < r@.len() && (#[trigger] r@[i]).pool_name@ == name by {
            let k = choose|k: int| 0 <= k < actives@.len() && actives@[k].0@ == name;
            assert(bm.contains_key(actives@[k].0@));
        }
    }
    r
}

/// One batch of a split price read: the calls `start..end`, and whether to
/// pause before the next batch.
#[derive(Debug, Clone, Copy, PartialEq, Eq, Structural)]
pub struct Batch {
    pub start: usize,
    pub end: usize,
    pub pause_after: bool,
}

/// The number of batches `total` calls take in batches of `size`.
pub open spec fn spec_batch_count(total: int, size: int) -> int {
    (total + size - 1) / size
}

/// How `total` calls are read in batches of `batch_size`: consecutive
/// chunks, the last one shorter if need be. Against a remote node, a pause
/// follows batch `i` when `i < total / batch_size`; a local node gets none.
pub fn plan_batches(total: usize, batch_size: usize, is_local: bool) -> (r: Vec<Batch>)
    requires
        batch_size > 0,
    ensures
        r@.len() == spec_batch_count(total as int, batch_size as int),
        forall|i: int| 0 <= i < r@.len() ==> {
            let b = #[trigger] r@[i];
            &&& b.start == i * batch_size
            &&& b.end == if (i + 1) * batch_size <= total {
                (i + 1) * batch_size
            } else {
                total as int
            }
            &&& b.pause_after == (!is_local && i < total / batch_size)
        },
{
    let full = total / batch_size;
    proof {
        if total % batch_size != 0 {
            assert(full < usize::MAX) by (nonlinear_arith)
                requires
                    full == total / batch_size,
                    total % batch_size != 0,
                    batch_size > 0,
                    total <= usize::MAX,
            ;
        }
    }
    let n = if total % batch_size != 0 {
        full + 1
    } else {
        full
    };
    proof {
        lemma_batch_count(total as int, batch_size as int);
    }
    let mut r: Vec<Batch> = Vec::new();
    let mut i: usize = 0;
    while i < n
        invariant
            batch_size > 0,
            full == total / batch_size,
            n == spec_batch_count(total as int, batch_size as int),
            forall|k: int| 0 <= k < n ==> #[trigger] (k * batch_size) < total,
            i <= n,
            r@.len() == i,
            forall|k: int| 0 <= k < r@.len() ==> {
                let b = #[trigger] r@[k];
                &&& b.start == k * batch_size
                &&& b.end == if (k + 1) * batch_size <= total {
                    (k + 1) * batch_size
                } else {
                    total as int
                }
                &&& b.pause_after == (!is_local && k < total / batch_size)
            },
        decreases n - i,
    {
        assert((i as int) * batch_size < total);
        let start = i * batch_size;
        proof {
            assert((i + 1) * batch_size == i * batch_size + batch_size) by (nonlinear_arith);
        }
        let end = if total - start >= batch_size {
            start + batch_size
        } else {
            total
        };
        r.push(Batch { start, end, pause_after: !is_local && i < full });
        i = i + 1;
    }
    r
}

/// The batch count is `total / size` rounded up, and every batch starts
/// before the end.
proof fn lemma_batch_count(total: int, size: int)
    requires
        size > 0,
        total >= 0,
    ensures
        spec_batch_count(total, size) == total / size + (if total % size != 0 { 1int } else { 0int }),
        forall|k: int| 0 <= k < spec_batch_count(total, size) ==> #[trigger] (k * size) < total,
{
    let q = total / size;
    let m = total % size;
    assert(total == q * size + m && 0 <= m < size) by (nonlinear_arith)
        requires
            size > 0,
            q == total / size,
            m == total % size,
    ;
    let n = spec_batch_count(total, size);
    assert(n == q + (if m != 0 { 1int } else { 0int })) by (nonlinear_arith)
        requires
            total == q * size + m,
            0 <= m < size,
            n == (total + size - 1) / size,
            size > 0,
    ;
    assert forall|k: int| 0 <= k < spec_batch_count(total, size) implies #[trigger] (k * size) < total by {
        assert(k * size < total) by (nonlinear_arith)
            requires
                0 <= k < n,
                n == q + (if m != 0 { 1int } else { 0int }),
                total == q * size + m,
                0 <= m < size,
                size > 0,
        ;
    }
}

} // verus!
