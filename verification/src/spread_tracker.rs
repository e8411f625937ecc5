//! Spread history before an execution: a bounded window of the best
//! spread seen at each poll, and the window's shape (how long it spans, how
//! far the spread moved, its extremes).
//!
//! A snapshot carries the two pool prices as the caller keeps them (`P`);
//! nothing here reads them. Rates of change in bps per second are the
//! caller's division of the deltas by the spans given here.

use crate::graph::spec_joined;
use crate::text::{push_decimal, push_signed_decimal, push_str, spec_decimal, spec_signed_decimal};
use std::collections::VecDeque;
use vstd::prelude::*;

verus! {

/// The best spread at one poll.
#[derive(Debug, Clone)]
pub struct SpreadSnapshot<P> {
    /// Milliseconds since the tracker started.
    pub timestamp_ms: u128,
    pub buy_pool: String,
    pub sell_pool: String,
    pub buy_price: P,
    pub sell_price: P,
    pub gross_spread_bps: i32,
    pub net_spread_bps: i32,
}

/// A window holding the last `capacity` snapshots, oldest first.
pub struct SpreadTracker<P> {
    history: VecDeque<SpreadSnapshot<P>>,
    capacity: usize,
}

/// The window after recording one snapshot: the oldest goes when the
/// window is full.
pub open spec fn spec_record<P>(h: Seq<SpreadSnapshot<P>>, capacity: usize, s: SpreadSnapshot<P>) -> Seq<SpreadSnapshot<P>> {
    (if h.len() >= capacity && h.len() > 0 {
        h.drop_first()
    } else {
        h
    }).push(s)
}

/// The two halves of a window around its middle snapshot.
#[derive(Debug, Clone, Copy, PartialEq, Eq, Structural)]
pub struct WindowHalves {
    /// Time from the first to the middle snapshot.
    pub first_ms: u128,
    /// Time from the middle to the last snapshot.
    pub second_ms: u128,
    /// Net spread change over the first half.
    pub first_delta_bps: i32,
    /// Net spread change over the second half.
    pub second_delta_bps: i32,
}

/// The shape of a window, as integers.
#[derive(Debug, Clone, Copy, PartialEq, Eq, Structural)]
pub struct WindowShape {
    /// Time from the first to the last snapshot.
    pub window_duration_ms: u128,
    /// Net spread change from the first to the last snapshot.
    pub spread_delta_bps: i32,
    /// With three or more snapshots, the two halves around the middle one.
    pub halves: Option<WindowHalves>,
    pub spread_at_trigger: i32,
    pub max_spread_in_window: i32,
    pub min_spread_in_window: i32,
}

/// The largest net spread of a window.
pub open spec fn spec_max_spread<P>(h: Seq<SpreadSnapshot<P>>) -> int
    decreases h.len(),
{
    if h.len() == 0 {
        i32::MIN as int
    } else if h.len() == 1 {
        h[0].net_spread_bps as int
    } else {
        let m = spec_max_spread(h.drop_last());
        if h.last().net_spread_bps > m {
            h.last().net_spread_bps as int
        } else {
            m
        }
    }
}

/// The smallest net spread of a window.
pub open spec fn spec_min_spread<P>(h: Seq<SpreadSnapshot<P>>) -> int
    decreases h.len(),
{
    if h.len() == 0 {
        i32::MAX as int
    } else if h.len() == 1 {
        h[0].net_spread_bps as int
    } else {
        let m = spec_min_spread(h.drop_last());
        if h.last().net_spread_bps < m {
            h.last().net_spread_bps as int
        } else {
            m
        }
    }
}

/// The window can be measured without a panic: timestamps do not go back
/// between the first, middle and last snapshot, and the spread changes fit
/// 32 bits.
pub open spec fn spec_shape_ok<P>(h: Seq<SpreadSnapshot<P>>) -> bool {
    h.len() >= 2 ==> {
        let first = h[0];
        let last = h[h.len() - 1];
        let mid = h[(h.len() / 2) as int];
        &&& first.timestamp_ms <= last.timestamp_ms
        &&& i32::MIN <= last.net_spread_bps - first.net_spread_bps <= i32::MAX
        &&& h.len() >= 3 ==> {
            &&& first.timestamp_ms <= mid.timestamp_ms <= last.timestamp_ms
            &&& i32::MIN <= mid.net_spread_bps - first.net_spread_bps <= i32::MAX
            &&& i32::MIN <= last.net_spread_bps - mid.net_spread_bps <= i32::MAX
        }
    }
}

/// "`net`bps@`t`ms" for one snapshot.
pub open spec fn spec_history_entry<P>(s: SpreadSnapshot<P>) -> Seq<char> {
    spec_signed_decimal(s.net_spread_bps as int) + "bps@"@ + spec_decimal(s.timestamp_ms as nat) + "ms"@
}

/// The entries of a window joined by " -> ", oldest first.
pub open spec fn spec_format_history<P>(h: Seq<SpreadSnapshot<P>>) -> Seq<char> {
    spec_joined(h.map_values(|s: SpreadSnapshot<P>| spec_history_entry(s)))
}

impl<P> SpreadTracker<P> {
    /// The snapshots held, oldest first.
    pub closed spec fn snapshots(&self) -> Seq<SpreadSnapshot<P>> {
        self.history@
    }

    /// The number of snapshots kept.
    pub closed spec fn spec_capacity(&self) -> usize {
        self.capacity
    }

    /// An empty window keeping `capacity` snapshots.
    pub fn new(capacity: usize) -> (r: Self)
        ensures
            r.snapshots() == Seq::<SpreadSnapshot<P>>::empty(),
            r.spec_capacity() == capacity,
    {
        SpreadTracker { history: VecDeque::with_capacity(capacity), capacity }
    }

    /// The snapshots held, oldest first.
    pub fn history(&self) -> (r: &VecDeque<SpreadSnapshot<P>>)
        ensures
            r@ == self.snapshots(),
    {
        &self.history
    }

    /// Record the best spread of a poll.
    pub fn record(&mut self, snapshot: SpreadSnapshot<P>)
        ensures
            final(self).snapshots() == spec_record(old(self).snapshots(), old(self).spec_capacity(), snapshot),
            final(self).spec_capacity() == old(self).spec_capacity(),
    {
        if self.history.len() >= self.capacity {
            let _ = self.history.pop_front();
        }
        self.history.push_back(snapshot);
    }

    /// The shape of the window when a trade is triggered; none with fewer
    /// than two snapshots or when they all carry the same time.
    pub fn analyze(&self) -> (r: Option<WindowShape>)
        requires
            spec_shape_ok(self.snapshots()),
        ensures
            ({
                let h = self.snapshots();
                if h.len() < 2 || h[h.len() - 1].timestamp_ms == h[0].timestamp_ms {
                    r is None
                } else {
                    let first = h[0];
                    let last = h[h.len() - 1];
                    let mid = h[(h.len() / 2) as int];
                    &&& r is Some
                    &&& r->0.window_duration_ms == last.timestamp_ms - first.timestamp_ms
                    &&& r->0.spread_delta_bps == last.net_spread_bps - first.net_spread_bps
                    &&& r->0.halves == if h.len() >= 3 {
                        Some(
                            WindowHalves {
                                first_ms: (mid.timestamp_ms - first.timestamp_ms) as u128,
                                second_ms: (last.timestamp_ms - mid.timestamp_ms) as u128,
                                first_delta_bps: (mid.net_spread_bps - first.net_spread_bps) as i32,
                                second_delta_bps: (last.net_spread_bps - mid.net_spread_bps) as i32,
                            },
                        )
                    } else {
                        None
                    }
                    &&& r->0.spread_at_trigger == last.net_spread_bps
                    &&& r->0.max_spread_in_window == spec_max_spread(h)
                    &&& r->0.min_spread_in_window == spec_min_spread(h)
                }
            }),
    {
        let n = self.history.len();
        if n < 2 {
            return None;
        }
        let first_ts = self.history[0].timestamp_ms;
        let last_ts = self.history[n - 1].timestamp_ms;
        let window_duration_ms = last_ts - first_ts;
        if window_duration_ms == 0 {
            return None;
        }
        let first_spread = self.history[0].net_spread_bps;
        let last_spread = self.history[n - 1].net_spread_bps;
        let halves = if n >= 3 {
            let mid = n / 2;
            let mid_ts = self.history[mid].timestamp_ms;
            let mid_spread = self.history[mid].net_spread_bps;
            Some(
                WindowHalves {
                    first_ms: mid_ts - first_ts,
                    second_ms: last_ts - mid_ts,
                    first_delta_bps: mid_spread - first_spread,
                    second_delta_bps: last_spread - mid_spread,
                },
            )
        } else {
            None
        };
        let mut max = self.history[0].net_spread_bps;
        let mut min = self.history[0].net_spread_bps;
        let mut i: usize = 1;
        let ghost h = self.history@;
        assert(h.take(1).drop_last() =~= Seq::<SpreadSnapshot<P>>::empty());
        while i < n
            invariant
                h == self.history@,
                n == h.len(),
                1 <= i <= n,
                max == spec_max_spread(h.take(i as int)),
                min == spec_min_spread(h.take(i as int)),
            decreases n - i,
        {
            proof {
                assert(h.take(i + 1).drop_last() == h.take(i as int));
                assert(h.take(i + 1).last() == h[i as int]);
                assert(h.take(i + 1)[0] == h[0]);
            }
            let s = self.history[i].net_spread_bps;
            if s > max {
                max = s;
            }
            if s < min {
                min = s;
            }
            i = i + 1;
        }
        assert(h.take(n as int) == h);
        Some(WindowShape {
            window_duration_ms,
            spread_delta_bps: last_spread - first_spread,
            halves,
            spread_at_trigger: last_spread,
            max_spread_in_window: max,
            min_spread_in_window: min,
        })
    }
}

impl<P> SpreadTracker<P> {
    /// The window as text: "`net`bps@`t`ms" per snapshot, oldest first,
    /// joined by " -> ".
    pub fn format_history(&self) -> (r: String)
        ensures
            r@ == spec_format_history(self.snapshots()),
    {
        let ghost h = self.history@;
        let ghost names = h.map_values(|s: SpreadSnapshot<P>| spec_history_entry(s));
        let mut out = String::new();
        let n = self.history.len();
        let mut i: usize = 0;
        while i < n
            invariant
                h == self.history@,
                n == h.len(),
                i <= n,
                names == h.map_values(|s: SpreadSnapshot<P>| spec_history_entry(s)),
                out@ == spec_joined(names.take(i as int)),
            decreases n - i,
        {
            proof {
                assert(names.take(i + 1).drop_last() == names.take(i as int));
                assert(names.take(i + 1).last() == spec_history_entry(h[i as int]));
                if i == 0 {
                    assert(names.take(1) == seq![spec_history_entry(h[0])]);
                }
            }
            if i > 0 {
                push_str(&mut out, " -> ");
            }
            let snap = &self.history[i];
            push_signed_decimal(&mut out, snap.net_spread_bps as i64);
            push_str(&mut out, "bps@");
            push_decimal(&mut out, snap.timestamp_ms);
            push_str(&mut out, "ms");
            i = i + 1;
        }
        assert(names.take(n as int) == names);
        out
    }
}

/// The window never holds more than its capacity (or one snapshot, for a
/// capacity of zero) once it held no more before.
pub proof fn law_window_bounded<P>(h: Seq<SpreadSnapshot<P>>, capacity: usize, s: SpreadSnapshot<P>)
    requires
        h.len() <= capacity || h.len() <= 1,
    ensures
        spec_record(h, capacity, s).len() <= capacity || spec_record(h, capacity, s).len() <= 1,
        spec_record(h, capacity, s).last() == s,
{
}

/// The largest net spread of a non-empty window bounds every snapshot's
/// net spread and is one of them; likewise the smallest is below every one
/// and is one of them.
pub proof fn law_window_extremes<P>(h: Seq<SpreadSnapshot<P>>)
    requires
        h.len() > 0,
    ensures
        forall|i: int| 0 <= i < h.len() ==> (#[trigger] h[i]).net_spread_bps <= spec_max_spread(h),
        exists|i: int| 0 <= i < h.len() && (#[trigger] h[i]).net_spread_bps == spec_max_spread(h),
        forall|i: int| 0 <= i < h.len() ==> (#[trigger] h[i]).net_spread_bps >= spec_min_spread(h),
        exists|i: int| 0 <= i < h.len() && (#[trigger] h[i]).net_spread_bps == spec_min_spread(h),
    decreases h.len(),
{
    if h.len() == 1 {
        assert(h[0].net_spread_bps == spec_max_spread(h));
        assert(h[0].net_spread_bps == spec_min_spread(h));
    } else {
        let t = h.drop_last();
        law_window_extremes(t);
        assert forall|i: int| 0 <= i < h.len() implies (#[trigger] h[i]).net_spread_bps <= spec_max_spread(h)
            && h[i].net_spread_bps >= spec_min_spread(h) by {
            if i < t.len() {
                assert(h[i] == t[i]);
            }
        }
        let a = choose|i: int| 0 <= i < t.len() && (#[trigger] t[i]).net_spread_bps == spec_max_spread(t);
        let b = choose|i: int| 0 <= i < t.len() && (#[trigger] t[i]).net_spread_bps == spec_min_spread(t);
        assert(h[a] == t[a] && h[b] == t[b]);
        let l = h.len() - 1;
        if h.last().net_spread_bps > spec_max_spread(t) {
            assert(h[l].net_spread_bps == spec_max_spread(h));
        } else {
            assert(h[a].net_spread_bps == spec_max_spread(h));
        }
        if h.last().net_spread_bps < spec_min_spread(t) {
            assert(h[l].net_spread_bps == spec_min_spread(h));
        } else {
            assert(h[b].net_spread_bps == spec_min_spread(h));
        }
    }
}

} // verus!
