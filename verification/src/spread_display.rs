//! Spread tracking for the terminal display: alert levels, trends, a
//! bounded history per pool pair and a sparkline of it.

use crate::text::{
    push_char, push_decimal, push_left_aligned, push_right_aligned, push_signed_decimal, push_signed_right, push_str,
    spec_decimal, spec_left_aligned, spec_right_aligned, spec_signed_decimal, spec_signed_right,
};
use std::collections::VecDeque;
use vstd::prelude::*;

verus! {

/// Spread alert levels, for color coding.
#[derive(Debug, Clone, Copy, PartialEq, Eq, Structural)]
pub enum SpreadLevel {
    /// Below 0 bps.
    Dead,
    /// 0 to 4 bps.
    Noise,
    /// 5 to 9 bps.
    Watching,
    /// 10 to 14 bps.
    Ready,
    /// 15 to 24 bps.
    Hot,
    /// 25 bps and above.
    Critical,
}

/// The level of a spread.
pub open spec fn spec_level(spread_bps: i32) -> SpreadLevel {
    if spread_bps < 0 {
        SpreadLevel::Dead
    } else if spread_bps <= 4 {
        SpreadLevel::Noise
    } else if spread_bps <= 9 {
        SpreadLevel::Watching
    } else if spread_bps <= 14 {
        SpreadLevel::Ready
    } else if spread_bps <= 24 {
        SpreadLevel::Hot
    } else {
        SpreadLevel::Critical
    }
}

/// The position of a level, from `Dead` (0) to `Critical` (5).
pub open spec fn level_rank(l: SpreadLevel) -> int {
    match l {
        SpreadLevel::Dead => 0,
        SpreadLevel::Noise => 1,
        SpreadLevel::Watching => 2,
        SpreadLevel::Ready => 3,
        SpreadLevel::Hot => 4,
        SpreadLevel::Critical => 5,
    }
}

/// The terminal color of a level.
pub open spec fn spec_color_code(l: SpreadLevel) -> Seq<char> {
    match l {
        SpreadLevel::Dead => "\x1b[90m"@,
        SpreadLevel::Noise => "\x1b[37m"@,
        SpreadLevel::Watching => "\x1b[33m"@,
        SpreadLevel::Ready => "\x1b[32m"@,
        SpreadLevel::Hot => "\x1b[1;32m"@,
        SpreadLevel::Critical => "\x1b[1;5;32m"@,
    }
}

/// The label of a level.
pub open spec fn spec_label(l: SpreadLevel) -> Seq<char> {
    match l {
        SpreadLevel::Dead => "DEAD"@,
        SpreadLevel::Noise => "NOISE"@,
        SpreadLevel::Watching => "WATCH"@,
        SpreadLevel::Ready => "READY"@,
        SpreadLevel::Hot => "HOT!"@,
        SpreadLevel::Critical => "GO GO GO"@,
    }
}

impl SpreadLevel {
    pub fn from_bps(spread_bps: i32) -> (r: Self)
        ensures
            r == spec_level(spread_bps),
    {
        if spread_bps < 0 {
            SpreadLevel::Dead
        } else if spread_bps <= 4 {
            SpreadLevel::Noise
        } else if spread_bps <= 9 {
            SpreadLevel::Watching
        } else if spread_bps <= 14 {
            SpreadLevel::Ready
        } else if spread_bps <= 24 {
            SpreadLevel::Hot
        } else {
            SpreadLevel::Critical
        }
    }

    pub fn color_code(&self) -> (r: &'static str)
        ensures
            r@ == spec_color_code(*self),
    {
        match self {
            SpreadLevel::Dead => "\x1b[90m",
            SpreadLevel::Noise => "\x1b[37m",
            SpreadLevel::Watching => "\x1b[33m",
            SpreadLevel::Ready => "\x1b[32m",
            SpreadLevel::Hot => "\x1b[1;32m",
            SpreadLevel::Critical => "\x1b[1;5;32m",
        }
    }

    pub fn label(&self) -> (r: &'static str)
        ensures
            r@ == spec_label(*self),
    {
        match self {
            SpreadLevel::Dead => "DEAD",
            SpreadLevel::Noise => "NOISE",
            SpreadLevel::Watching => "WATCH",
            SpreadLevel::Ready => "READY",
            SpreadLevel::Hot => "HOT!",
            SpreadLevel::Critical => "GO GO GO",
        }
    }
}

/// A higher spread never has a lower level.
pub proof fn law_level_monotone(a: i32, b: i32)
    requires
        a <= b,
    ensures
        level_rank(spec_level(a)) <= level_rank(spec_level(b)),
{
}

/// Direction of recent spread changes.
#[derive(Debug, Clone, Copy, PartialEq, Eq, Structural)]
pub enum Trend {
    /// Spread increasing.
    Rising,
    /// Within one bps either way.
    Stable,
    /// Spread decreasing.
    Falling,
}

impl Trend {
    pub fn arrow(&self) -> (r: &'static str)
        ensures
            *self == Trend::Rising ==> r@ == "↑"@,
            *self == Trend::Stable ==> r@ == "→"@,
            *self == Trend::Falling ==> r@ == "↓"@,
    {
        match self {
            Trend::Rising => "↑",
            Trend::Stable => "→",
            Trend::Falling => "↓",
        }
    }

    pub fn color(&self) -> (r: &'static str)
        ensures
            *self == Trend::Rising ==> r@ == "\x1b[32m"@,
            *self == Trend::Stable ==> r@ == "\x1b[33m"@,
            *self == Trend::Falling ==> r@ == "\x1b[31m"@,
    {
        match self {
            Trend::Rising => "\x1b[32m",
            Trend::Stable => "\x1b[33m",
            Trend::Falling => "\x1b[31m",
        }
    }
}

/// The history after recording `x`: the oldest value is dropped first when
/// the history is already at capacity.
pub open spec fn spec_push(h: Seq<i32>, capacity: usize, x: i32) -> Seq<i32> {
    (if h.len() >= capacity && h.len() > 0 {
        h.drop_first()
    } else {
        h
    }).push(x)
}

/// The number of recent values the trend averages: the last three.
pub open spec fn recent_count(h: Seq<i32>) -> int {
    if h.len() < 3 {
        h.len() as int
    } else {
        3
    }
}

/// The sum of the `k` most recent values.
pub open spec fn recent_sum(h: Seq<i32>, k: int) -> int
    decreases k,
{
    if k <= 0 {
        0
    } else {
        recent_sum(h, k - 1) + h[h.len() - k]
    }
}

/// Rust's `/` on signed integers: the quotient rounded toward zero.
pub open spec fn div_toward_zero(x: int, d: int) -> int
    recommends
        d > 0,
{
    if x >= 0 {
        x / d
    } else {
        -((-x) / d)
    }
}

/// The trend: the average of the last three values (rounded toward zero)
/// against the oldest value; more than one bps up is rising, more than one
/// bps down is falling.
pub open spec fn spec_trend(h: Seq<i32>) -> Trend {
    if h.len() < 2 {
        Trend::Stable
    } else {
        let avg = div_toward_zero(recent_sum(h, recent_count(h)), recent_count(h));
        let d = avg - h[0];
        if d > 1 {
            Trend::Rising
        } else if d < -1 {
            Trend::Falling
        } else {
            Trend::Stable
        }
    }
}

/// The trend is computed in 32 bits without overflow.
pub open spec fn spec_trend_ok(h: Seq<i32>) -> bool {
    h.len() >= 2 ==> {
        &&& forall|k: int|
            1 <= k <= recent_count(h) ==> i32::MIN <= #[trigger] recent_sum(h, k) <= i32::MAX
        &&& i32::MIN <= div_toward_zero(recent_sum(h, recent_count(h)), recent_count(h)) - h[0]
            <= i32::MAX
    }
}

/// The values a sparkline shows: the last ten.
pub open spec fn spark_values(h: Seq<i32>) -> Seq<i32> {
    if h.len() <= 10 {
        h
    } else {
        h.subrange(h.len() - 10, h.len() as int)
    }
}

/// The smallest value of a non-empty sequence.
pub open spec fn seq_min(s: Seq<i32>) -> int
    decreases s.len(),
{
    if s.len() <= 1 {
        s[0] as int
    } else if (s.last() as int) < seq_min(s.drop_last()) {
        s.last() as int
    } else {
        seq_min(s.drop_last())
    }
}

/// The largest value of a non-empty sequence.
pub open spec fn seq_max(s: Seq<i32>) -> int
    decreases s.len(),
{
    if s.len() <= 1 {
        s[0] as int
    } else if (s.last() as int) > seq_max(s.drop_last()) {
        s.last() as int
    } else {
        seq_max(s.drop_last())
    }
}

/// The bar characters of a sparkline, lowest first.
pub open spec fn spark_char(i: int) -> char {
    if i <= 0 {
        '▁'
    } else if i == 1 {
        '▂'
    } else if i == 2 {
        '▃'
    } else if i == 3 {
        '▄'
    } else if i == 4 {
        '▅'
    } else if i == 5 {
        '▆'
    } else if i == 6 {
        '▇'
    } else {
        '█'
    }
}

/// The bar height (0 to 7) of a value between the window's minimum and
/// its range (at least one).
pub open spec fn spark_index(v: int, min: int, range: int) -> int {
    let i = (v - min) * 7 / range;
    if i > 7 {
        7
    } else {
        i
    }
}

/// The sparkline of a history: one bar per shown value, scaled between
/// their minimum and maximum, or eleven dots when there is no value.
pub open spec fn spec_sparkline(h: Seq<i32>) -> Seq<char> {
    let vals = spark_values(h);
    if vals.len() == 0 {
        "..........."@
    } else {
        let min = seq_min(vals);
        let range = if seq_max(vals) - min > 1 {
            seq_max(vals) - min
        } else {
            1
        };
        Seq::new(vals.len(), |i: int| spark_char(spark_index(vals[i] as int, min, range)))
    }
}

/// The sparkline is computed in 32 bits without overflow.
pub open spec fn spec_sparkline_ok(h: Seq<i32>) -> bool {
    spark_values(h).len() > 0 ==> (seq_max(spark_values(h)) - seq_min(spark_values(h))) * 7
        <= i32::MAX
}

/// History buffer for one pool pair.
#[derive(Debug, Clone)]
pub struct PairHistory {
    /// "BuyPool→SellPool"
    pub pair_key: String,
    /// The last spread values in bps, oldest first.
    pub history: VecDeque<i32>,
    pub capacity: usize,
}

impl PairHistory {
    pub fn new(key: String, capacity: usize) -> (r: Self)
        ensures
            r.pair_key@ == key@,
            r.history@ == Seq::<i32>::empty(),
            r.capacity == capacity,
    {
        PairHistory { pair_key: key, history: VecDeque::with_capacity(capacity), capacity }
    }

    /// Record a spread, dropping the oldest value when full.
    pub fn push(&mut self, spread_bps: i32)
        ensures
            final(self).history@ == spec_push(old(self).history@, old(self).capacity, spread_bps),
            final(self).pair_key@ == old(self).pair_key@,
            final(self).capacity == old(self).capacity,
    {
        if self.history.len() >= self.capacity {
            let _ = self.history.pop_front();
        }
        self.history.push_back(spread_bps);
    }

    /// Direction of the recent spread changes.
    pub fn trend(&self) -> (r: Trend)
        requires
            spec_trend_ok(self.history@),
        ensures
            r == spec_trend(self.history@),
    {
        let n = self.history.len();
        if n < 2 {
            return Trend::Stable;
        }
        let k: usize = if n < 3 {
            n
        } else {
            3
        };
        let ghost h = self.history@;
        let mut sum: i32 = 0;
        let mut j: usize = 0;
        while j < k
            invariant
                h == self.history@,
                n == h.len(),
                k == recent_count(h),
                j <= k,
                sum == recent_sum(h, j as int),
                spec_trend_ok(h),
                n >= 2,
            decreases k - j,
        {
            j = j + 1;
            assert(1 <= j <= recent_count(h));
            assert(i32::MIN <= recent_sum(h, j as int) <= i32::MAX);
            sum = sum + self.history[n - j];
        }
        let q = match sum.checked_div(k as i32) {
            Some(q) => q,
            None => 0,
        };
        let oldest = self.history[0];
        let d = q - oldest;
        if d > 1 {
            Trend::Rising
        } else if d < -1 {
            Trend::Falling
        } else {
            Trend::Stable
        }
    }

    /// A mini sparkline of the last ten values.
    pub fn sparkline(&self) -> (r: String)
        requires
            spec_sparkline_ok(self.history@),
        ensures
            r@ == spec_sparkline(self.history@),
    {
        let n = self.history.len();
        let start: usize = if n <= 10 {
            0
        } else {
            n - 10
        };
        let ghost h = self.history@;
        let ghost vals = spark_values(h);
        let mut s = String::new();
        if n == 0 {
            push_str(&mut s, "...........");
            return s;
        }
        assert(vals =~= h.subrange(start as int, n as int));
        // smallest and largest shown value
        let mut min: i32 = self.history[start];
        let mut max: i32 = self.history[start];
        let mut i: usize = start + 1;
        while i < n
            invariant
                h == self.history@,
                n == h.len(),
                start < n,
                start < i <= n,
                min == seq_min(h.subrange(start as int, i as int)),
                max == seq_max(h.subrange(start as int, i as int)),
            decreases n - i,
        {
            let v = self.history[i];
            assert(h.subrange(start as int, i + 1).drop_last() =~= h.subrange(start as int, i as int));
            if v < min {
                min = v;
            }
            if v > max {
                max = v;
            }
            i = i + 1;
        }
        assert(h.subrange(start as int, n as int) =~= vals);
        let range: i32 = if max - min > 1 {
            max - min
        } else {
            1
        };
        let mut j: usize = start;
        while j < n
            invariant
                h == self.history@,
                n == h.len(),
                start < n,
                start <= j <= n,
                vals == h.subrange(start as int, n as int),
                min == seq_min(vals),
                max == seq_max(vals),
                range == (if seq_max(vals) - min > 1 { seq_max(vals) - min } else { 1 }),
                (max - min) * 7 <= i32::MAX,
                s@ == Seq::new((j - start) as nat, |t: int| spark_char(spark_index(vals[t] as int, min as int, range as int))),
            decreases n - j,
        {
            let v = self.history[j];
            proof {
                lemma_seq_min_max_bound(vals, (j - start) as int);
            }
            let idx = (v - min) * 7 / range;
            let c = spark_char_exec(if idx > 7 {
                7
            } else {
                idx
            });
            push_char(&mut s, c);
            j = j + 1;
            assert(s@ =~= Seq::new((j - start) as nat, |t: int| spark_char(spark_index(vals[t] as int, min as int, range as int))));
        }
        s
    }
}


/// What the display knows of one pair: its key, history and capacity.
pub open spec fn pair_view(p: PairHistory) -> (Seq<char>, Seq<i32>, usize) {
    (p.pair_key@, p.history@, p.capacity)
}

/// The index of the pair with this key, if any (the first one).
pub open spec fn spec_find_key(v: Seq<(Seq<char>, Seq<i32>, usize)>, key: Seq<char>) -> Option<int>
    decreases v.len(),
{
    if v.len() == 0 {
        None
    } else {
        match spec_find_key(v.drop_last(), key) {
            Some(i) => Some(i),
            None => if v.last().0 == key {
                Some(v.len() - 1)
            } else {
                None
            },
        }
    }
}

/// No two pairs share a key.
pub open spec fn keys_unique(v: Seq<(Seq<char>, Seq<i32>, usize)>) -> bool {
    forall|i: int, j: int| 0 <= i < j < v.len() ==> v[i].0 != v[j].0
}

/// The pairs after recording a spread for `key`: the pair's history takes
/// the value, and an unknown key gets a new pair first.
pub open spec fn spec_record(
    v: Seq<(Seq<char>, Seq<i32>, usize)>,
    history_size: usize,
    key: Seq<char>,
    spread_bps: i32,
) -> Seq<(Seq<char>, Seq<i32>, usize)> {
    match spec_find_key(v, key) {
        Some(i) => v.update(i, (key, spec_push(v[i].1, v[i].2, spread_bps), v[i].2)),
        None => v.push((key, spec_push(Seq::empty(), history_size, spread_bps), history_size)),
    }
}

/// The pair with the best latest spread among the first `n` pairs (those
/// with a history), the later one on a tie.
pub open spec fn spec_best_upto(v: Seq<(Seq<char>, Seq<i32>, usize)>, n: int) -> Option<int>
    decreases n,
{
    if n <= 0 {
        None
    } else {
        let b = spec_best_upto(v, n - 1);
        if v[n - 1].1.len() == 0 {
            b
        } else {
            match b {
                None => Some(n - 1),
                Some(j) => if v[n - 1].1.last() >= v[j].1.last() {
                    Some(n - 1)
                } else {
                    b
                },
            }
        }
    }
}

/// The one-line status: the best pair's latest spread, colored by level,
/// or a note that there is none.
pub open spec fn spec_oneline(v: Seq<(Seq<char>, Seq<i32>, usize)>) -> Seq<char> {
    match spec_best_upto(v, v.len() as int) {
        Some(i) => {
            let spread = v[i].1.last();
            let level = spec_level(spread);
            spec_color_code(level) + "["@ + spec_signed_right(spread as int, 4) + "bps] "@
                + spec_left_aligned(v[i].0, 25) + " "@ + spec_label(level) + "\x1b[0m"@
        },
        None => "\x1b[90mNo active spreads\x1b[0m"@,
    }
}

/// Pair `a` ranks before pair `b`: a higher latest spread, or the same
/// spread and an earlier pair.
pub open spec fn ranks_before(v: Seq<(Seq<char>, Seq<i32>, usize)>, a: int, b: int) -> bool {
    v[a].1.last() > v[b].1.last() || (v[a].1.last() == v[b].1.last() && a < b)
}

/// The pair has a latest spread of at least `min_bps`.
pub open spec fn is_active(v: Seq<(Seq<char>, Seq<i32>, usize)>, i: int, min_bps: i32) -> bool {
    0 <= i < v.len() && v[i].1.len() > 0 && v[i].1.last() >= min_bps
}

/// `r` lists the active pairs, each once, highest latest spread first and
/// in pair order among equal spreads.
pub open spec fn spec_ranked(
    v: Seq<(Seq<char>, Seq<i32>, usize)>,
    min_bps: i32,
    r: Seq<usize>,
) -> bool {
    &&& forall|k: int| 0 <= k < r.len() ==> is_active(v, #[trigger] r[k] as int, min_bps)
    &&& forall|i: int| is_active(v, i, min_bps) ==> r.contains(i as usize)
    &&& forall|a: int, b: int|
        0 <= a < b < r.len() ==> ranks_before(v, #[trigger] r[a] as int, #[trigger] r[b] as int)
}


/// The action shown for a level.
pub open spec fn spec_action(l: SpreadLevel) -> Seq<char> {
    match l {
        SpreadLevel::Critical | SpreadLevel::Hot => "\x1b[1;32mEXECUTE\x1b[0m"@,
        SpreadLevel::Ready => "\x1b[32mREADY\x1b[0m"@,
        SpreadLevel::Watching => "\x1b[33mMONITOR\x1b[0m"@,
        _ => "\x1b[90m-\x1b[0m"@,
    }
}

/// The action shown for a level.
pub fn action_label(l: SpreadLevel) -> (r: &'static str)
    ensures
        r@ == spec_action(l),
{
    match l {
        SpreadLevel::Critical | SpreadLevel::Hot => "\x1b[1;32mEXECUTE\x1b[0m",
        SpreadLevel::Ready => "\x1b[32mREADY\x1b[0m",
        SpreadLevel::Watching => "\x1b[33mMONITOR\x1b[0m",
        _ => "\x1b[90m-\x1b[0m",
    }
}

/// The arrow of a trend.
pub open spec fn spec_arrow(t: Trend) -> Seq<char> {
    match t {
        Trend::Rising => "↑"@,
        Trend::Stable => "→"@,
        Trend::Falling => "↓"@,
    }
}

/// The color of a trend.
pub open spec fn spec_trend_color(t: Trend) -> Seq<char> {
    match t {
        Trend::Rising => "\x1b[32m"@,
        Trend::Stable => "\x1b[33m"@,
        Trend::Falling => "\x1b[31m"@,
    }
}

/// The key and spread columns of a row.
pub open spec fn spec_row_key(key: Seq<char>, spread: i32) -> Seq<char> {
    "\x1b[2K  "@ + spec_color_code(spec_level(spread)) + spec_left_aligned(key, 26) + "\x1b[0m "@
        + spec_signed_right(spread as int, 8) + " "@
}

/// The level and trend columns of a row.
pub open spec fn spec_row_level(spread: i32, trend: Trend) -> Seq<char> {
    spec_color_code(spec_level(spread)) + spec_right_aligned(spec_label(spec_level(spread)), 7) + "\x1b[0m "@
        + spec_trend_color(trend) + spec_right_aligned(spec_arrow(trend), 3) + "\x1b[0m "@
}

/// The sparkline and action columns of a row.
pub open spec fn spec_row_tail(spark: Seq<char>, spread: i32) -> Seq<char> {
    spec_right_aligned(spark, 12) + " "@ + spec_right_aligned(spec_action(spec_level(spread)), 10) + "\n"@
}

/// The dashboard row of a pair with a history: key, latest spread, level,
/// trend, sparkline and action, each in its column.
pub open spec fn spec_spread_row(p: (Seq<char>, Seq<i32>, usize)) -> Seq<char> {
    spec_row_key(p.0, p.1.last()) + spec_row_level(p.1.last(), spec_trend(p.1)) + spec_row_tail(
        spec_sparkline(p.1),
        p.1.last(),
    )
}

/// The rows of the pairs in `order`.
pub open spec fn spec_rows(v: Seq<(Seq<char>, Seq<i32>, usize)>, order: Seq<usize>) -> Seq<char>
    decreases order.len(),
{
    if order.len() == 0 {
        Seq::empty()
    } else {
        spec_rows(v, order.drop_last()) + spec_spread_row(v[order.last() as int])
    }
}

/// `n` empty rows.
pub open spec fn spec_blank_rows(n: nat) -> Seq<char>
    decreases n,
{
    if n == 0 {
        Seq::empty()
    } else {
        spec_blank_rows((n - 1) as nat) + "\x1b[2K\n"@
    }
}

/// The heading of the dashboard's spread section.
pub open spec fn spec_section_head() -> Seq<char> {
    "\x1b[2K\n\x1b[2K\x1b[1m  SPREAD OPPORTUNITIES\x1b[0m\n\x1b[2K  ─────────────────────────────────────────────────────────────────────\n\x1b[2K  PAIR                            NET   LEVEL            TREND     ACTION\n\x1b[2K  ─────────────────────────────────────────────────────────────────────\n"@
}

/// The dashboard's spread section: its heading, the rows of the first eight
/// pairs in `order`, and empty rows up to eight.
pub open spec fn spec_spread_section(v: Seq<(Seq<char>, Seq<i32>, usize)>, order: Seq<usize>) -> Seq<char> {
    let shown = if order.len() <= 8 {
        order
    } else {
        order.take(8)
    };
    spec_section_head() + spec_rows(v, shown) + spec_blank_rows((8 - shown.len()) as nat)
}

/// The pairs the spread section shows: the first eight of the ranking.
pub open spec fn spec_shown(order: Seq<usize>) -> Seq<usize> {
    if order.len() <= 8 {
        order
    } else {
        order.take(8)
    }
}

/// The spread section always has eight rows below its heading: one per
/// shown pair, at most eight, then blank ones. The pairs shown are the top
/// of the ranking: every pair with a history that is not shown ranks below
/// every pair that is, and none is left out while there is room.
pub proof fn law_section_shows_top_eight(v: Seq<(Seq<char>, Seq<i32>, usize)>, order: Seq<usize>, i: int)
    requires
        v.len() <= usize::MAX,
        spec_ranked(v, i32::MIN, order),
        is_active(v, i, i32::MIN),
        !spec_shown(order).contains(i as usize),
    ensures
        spec_spread_section(v, order) == spec_section_head() + spec_rows(v, spec_shown(order)) + spec_blank_rows(
            (8 - spec_shown(order).len()) as nat,
        ),
        spec_shown(order).len() + (8 - spec_shown(order).len()) == 8,
        spec_shown(order).len() == 8,
        forall|a: int| 0 <= a < 8 ==> ranks_before(v, #[trigger] spec_shown(order)[a] as int, i),
{
    assert(order.contains(i as usize));
    let k = choose|k: int| 0 <= k < order.len() && order[k] == i as usize;
    assert(order[k] as int == i);
    if order.len() <= 8 {
        assert(spec_shown(order).contains(i as usize));
    }
    if k < 8 {
        assert(spec_shown(order)[k] == i as usize);
    }
    assert forall|a: int| 0 <= a < 8 implies ranks_before(v, #[trigger] spec_shown(order)[a] as int, i) by {
        assert(spec_shown(order)[a] == order[a]);
        assert(ranks_before(v, order[a] as int, order[k] as int));
    }
}

/// The pair can be drawn: its trend and sparkline fit 32 bits.
pub open spec fn spec_drawable(p: (Seq<char>, Seq<i32>, usize)) -> bool {
    spec_trend_ok(p.1) && spec_sparkline_ok(p.1)
}

fn push_row_key(s: &mut String, key: &str, spread: i32)
    ensures
        final(s)@ == old(s)@ + spec_row_key(key@, spread),
{
    let level = SpreadLevel::from_bps(spread);
    push_str(s, "\x1b[2K  ");
    push_str(s, level.color_code());
    push_left_aligned(s, key, 26);
    push_str(s, "\x1b[0m ");
    push_signed_right(s, spread, 8);
    push_str(s, " ");
}

fn push_row_level(s: &mut String, spread: i32, trend: Trend)
    ensures
        final(s)@ == old(s)@ + spec_row_level(spread, trend),
{
    let level = SpreadLevel::from_bps(spread);
    push_str(s, level.color_code());
    push_right_aligned(s, level.label(), 7);
    push_str(s, "\x1b[0m ");
    push_str(s, trend.color());
    push_right_aligned(s, trend.arrow(), 3);
    push_str(s, "\x1b[0m ");
}

fn push_row_tail(s: &mut String, spark: &str, spread: i32)
    ensures
        final(s)@ == old(s)@ + spec_row_tail(spark@, spread),
{
    push_right_aligned(s, spark, 12);
    push_str(s, " ");
    push_right_aligned(s, action_label(SpreadLevel::from_bps(spread)), 10);
    push_str(s, "\n");
}

fn push_spread_row(s: &mut String, p: &PairHistory)
    requires
        p.history@.len() > 0,
        spec_drawable(pair_view(*p)),
    ensures
        final(s)@ == old(s)@ + spec_spread_row(pair_view(*p)),
{
    let n = p.history.len();
    let spread = p.history[n - 1];
    let trend = p.trend();
    let spark = p.sparkline();
    push_row_key(s, p.pair_key.as_str(), spread);
    push_row_level(s, spread, trend);
    push_row_tail(s, spark.as_str(), spread);
}

/// The table row of a pair in the live view: key, latest spread, level,
/// trend, sparkline and the time since the last update.
pub open spec fn spec_table_row(p: (Seq<char>, Seq<i32>, usize), age_ms: u128) -> Seq<char> {
    let spread = p.1.last();
    let level = spec_level(spread);
    let trend = spec_trend(p.1);
    "\x1b[2K  "@ + spec_color_code(level) + spec_left_aligned(p.0, 25) + "\x1b[0m "@ + spec_signed_right(
        spread as int,
        8,
    ) + " "@ + spec_table_row_tail(p, age_ms)
}

/// The level, trend, sparkline and age columns of a table row.
pub open spec fn spec_table_row_tail(p: (Seq<char>, Seq<i32>, usize), age_ms: u128) -> Seq<char> {
    let level = spec_level(p.1.last());
    let trend = spec_trend(p.1);
    spec_color_code(level) + spec_right_aligned(spec_label(level), 6) + "\x1b[0m "@ + spec_trend_color(trend)
        + spec_right_aligned(spec_arrow(trend), 3) + "\x1b[0m "@ + spec_right_aligned(spec_sparkline(p.1), 12)
        + " "@ + spec_right_aligned(spec_decimal(age_ms as nat) + "ms"@, 8) + "\n"@
}

/// The table rows of the pairs in `order`.
pub open spec fn spec_table_rows(v: Seq<(Seq<char>, Seq<i32>, usize)>, order: Seq<usize>, age_ms: u128) -> Seq<char>
    decreases order.len(),
{
    if order.len() == 0 {
        Seq::empty()
    } else {
        spec_table_rows(v, order.drop_last(), age_ms) + spec_table_row(v[order.last() as int], age_ms)
    }
}

/// The live view: a header (time, block, pair count, threshold), the pairs
/// at or above the threshold highest first (at most ten), or a note that
/// there are none, and a legend of the levels.
pub open spec fn spec_live_view(
    v: Seq<(Seq<char>, Seq<i32>, usize)>,
    min_display_bps: i32,
    now: Seq<char>,
    block_number: Option<u64>,
    age_ms: u128,
    order: Seq<usize>,
) -> Seq<char> {
    "\x1b[2K\r\x1b[1;36m["@ + now + "] Block: "@ + (match block_number {
        Some(b) => spec_decimal(b as nat),
        None => "?"@,
    }) + " | Pairs: "@ + spec_decimal(v.len()) + " | Filter: >"@ + spec_signed_decimal(min_display_bps as int)
        + "bps\x1b[0m\n"@ + (if order.len() == 0 {
        "\x1b[2K  \x1b[90mNo spreads above "@ + spec_signed_decimal(min_display_bps as int) + "bps threshold\x1b[0m\n"@
    } else {
        "\x1b[2K  \x1b[1mPAIR                       NET BPS  LEVEL   →    SPARKLINE      AGE\x1b[0m\n\x1b[2K  ──────────────────────────────────────────────────────────────────────\n"@ + spec_table_rows(v, if order.len() <= 10 { order } else { order.take(10) }, age_ms)
    }) + "\x1b[2K  ──────────────────────────────────────────────────────────────────────\n\x1b[2K  \x1b[90mLevels: \x1b[37mNOISE(<5)\x1b[90m | \x1b[33mWATCH(5-9)\x1b[90m | \x1b[32mREADY(10-14)\x1b[90m | \x1b[1;32mHOT(15-24)\x1b[90m | \x1b[1;5;32mGO(25+)\x1b[0m\n"@
}

fn push_table_row(s: &mut String, p: &PairHistory, age_ms: u128)
    requires
        p.history@.len() > 0,
        spec_drawable(pair_view(*p)),
    ensures
        final(s)@ == old(s)@ + spec_table_row(pair_view(*p), age_ms),
{
    let n = p.history.len();
    let spread = p.history[n - 1];
    let level = SpreadLevel::from_bps(spread);
    push_str(s, "\x1b[2K  ");
    push_str(s, level.color_code());
    push_left_aligned(s, p.pair_key.as_str(), 25);
    push_str(s, "\x1b[0m ");
    push_signed_right(s, spread, 8);
    push_str(s, " ");
    push_table_row_tail(s, p, age_ms);
}

fn push_table_row_tail(s: &mut String, p: &PairHistory, age_ms: u128)
    requires
        p.history@.len() > 0,
        spec_drawable(pair_view(*p)),
    ensures
        final(s)@ == old(s)@ + spec_table_row_tail(pair_view(*p), age_ms),
{
    let n = p.history.len();
    let spread = p.history[n - 1];
    let level = SpreadLevel::from_bps(spread);
    let trend = p.trend();
    let spark = p.sparkline();
    push_str(s, level.color_code());
    push_right_aligned(s, level.label(), 6);
    push_str(s, "\x1b[0m ");
    push_str(s, trend.color());
    push_right_aligned(s, trend.arrow(), 3);
    push_str(s, "\x1b[0m ");
    push_right_aligned(s, spark.as_str(), 12);
    push_str(s, " ");
    let mut age = String::new();
    push_decimal(&mut age, age_ms);
    push_str(&mut age, "ms");
    push_right_aligned(s, age.as_str(), 8);
    push_str(s, "\n");
}

/// `r` lists pairs highest latest spread first (pair order among equal
/// spreads), so each at most once.
pub open spec fn spec_rank_sorted(v: Seq<(Seq<char>, Seq<i32>, usize)>, r: Seq<usize>) -> bool {
    forall|a: int, b: int| 0 <= a < b < r.len() ==> ranks_before(v, #[trigger] r[a] as int, #[trigger] r[b] as int)
}

proof fn lemma_sorted_lists_equal(v: Seq<(Seq<char>, Seq<i32>, usize)>, r1: Seq<usize>, r2: Seq<usize>)
    requires
        spec_rank_sorted(v, r1),
        spec_rank_sorted(v, r2),
        forall|x: usize| r1.contains(x) <==> r2.contains(x),
    ensures
        r1 == r2,
    decreases r1.len(),
{
    if r1.len() == 0 {
        if r2.len() > 0 {
            assert(r2.contains(r2[0]));
        }
        assert(r1 =~= r2);
    } else {
        assert(r1.contains(r1[0]));
        assert(r2.len() > 0);
        assert(r2.contains(r2[0]));
        let p = choose|p: int| 0 <= p < r2.len() && r2[p] == r1[0];
        let q = choose|q: int| 0 <= q < r1.len() && r1[q] == r2[0];
        if r1[0] != r2[0] {
            assert(p > 0 && q > 0);
            assert(ranks_before(v, r2[0] as int, r2[p] as int));
            assert(ranks_before(v, r1[0] as int, r1[q] as int));
            assert(false);
        }
        let t1 = r1.drop_first();
        let t2 = r2.drop_first();
        assert forall|x: usize| t1.contains(x) <==> t2.contains(x) by {
            if t1.contains(x) {
                let i = choose|i: int| 0 <= i < t1.len() && t1[i] == x;
                assert(r1[i + 1] == x);
                assert(ranks_before(v, r1[0] as int, r1[i + 1] as int));
                assert(x != r1[0]);
                assert(r1.contains(x));
                assert(r2.contains(x));
                let j = choose|j: int| 0 <= j < r2.len() && r2[j] == x;
                assert(j != 0);
                assert(t2[j - 1] == x);
            }
            if t2.contains(x) {
                let i = choose|i: int| 0 <= i < t2.len() && t2[i] == x;
                assert(r2[i + 1] == x);
                assert(ranks_before(v, r2[0] as int, r2[i + 1] as int));
                assert(x != r2[0]);
                assert(r2.contains(x));
                assert(r1.contains(x));
                let j = choose|j: int| 0 <= j < r1.len() && r1[j] == x;
                assert(j != 0);
                assert(t1[j - 1] == x);
            }
        }
        assert forall|a: int, b: int| 0 <= a < b < t1.len() implies ranks_before(v, #[trigger] t1[a] as int, #[trigger] t1[b] as int) by {
            assert(t1[a] == r1[a + 1] && t1[b] == r1[b + 1]);
        }
        assert forall|a: int, b: int| 0 <= a < b < t2.len() implies ranks_before(v, #[trigger] t2[a] as int, #[trigger] t2[b] as int) by {
            assert(t2[a] == r2[a + 1] && t2[b] == r2[b + 1]);
        }
        lemma_sorted_lists_equal(v, t1, t2);
        assert(r1 =~= seq![r1[0]] + t1);
        assert(r2 =~= seq![r2[0]] + t2);
    }
}

/// There is one ranking of the active pairs: any two lists that rank them
/// are the same list.
pub proof fn law_ranking_unique(v: Seq<(Seq<char>, Seq<i32>, usize)>, min_bps: i32, r1: Seq<usize>, r2: Seq<usize>)
    requires
        spec_ranked(v, min_bps, r1),
        spec_ranked(v, min_bps, r2),
    ensures
        r1 == r2,
{
    assert forall|x: usize| r1.contains(x) <==> r2.contains(x) by {
        if r1.contains(x) {
            let i = choose|i: int| 0 <= i < r1.len() && r1[i] == x;
            assert(is_active(v, r1[i] as int, min_bps));
        }
        if r2.contains(x) {
            let i = choose|i: int| 0 <= i < r2.len() && r2[i] == x;
            assert(is_active(v, r2[i] as int, min_bps));
        }
    }
    lemma_sorted_lists_equal(v, r1, r2);
}

/// The histories after recording a spread for `key` in them.
fn record_in(histories: Vec<PairHistory>, key: String, spread_bps: i32, history_size: usize) -> (r: Vec<
    PairHistory,
>)
    requires
        keys_unique(histories_view(histories@)),
    ensures
        histories_view(r@) == spec_record(histories_view(histories@), history_size, key@, spread_bps),
        keys_unique(histories_view(r@)),
{
    let mut hs = histories;
    let ghost v = histories_view(hs@);
    assert(keys_unique(v));
    let n = hs.len();
    let mut i: usize = 0;
    while i < n
        invariant
            n == hs.len(),
            v == histories_view(hs@),
            v == histories_view(histories@),
            keys_unique(v),
            i <= n,
            spec_find_key(v.subrange(0, i as int), key@) is None,
        decreases n - i,
    {
        assert(v.subrange(0, i + 1).drop_last() =~= v.subrange(0, i as int));
        assert(v[i as int] == pair_view(hs@[i as int]));
        if hs[i].pair_key == key {
            assert(v.subrange(0, i + 1).last() == v[i as int]);
            assert(spec_find_key(v.subrange(0, i + 1), key@) == Some(i as int));
            proof {
                lemma_find_key_prefix(v, key@, i as int + 1);
            }
            let ghost old_vec = hs@;
            let mut h = hs.remove(i);
            assert(h == old_vec[i as int]);
            h.push(spread_bps);
            hs.insert(i, h);
            assert(hs@ =~= old_vec.update(i as int, h));
            assert(histories_view(hs@) =~= v.update(i as int, pair_view(h)));
            assert(pair_view(h) == (key@, spec_push(v[i as int].1, v[i as int].2, spread_bps), v[i as int].2));
            assert(histories_view(hs@) =~= spec_record(v, history_size, key@, spread_bps));
            proof {
                assert forall|x: int, y: int| 0 <= x < y < histories_view(hs@).len() implies histories_view(hs@)[x].0 != histories_view(hs@)[y].0 by {
                    assert(v[x].0 != v[y].0);
                }
            }
            return hs;
        }
        i = i + 1;
    }
    assert(v.subrange(0, n as int) =~= v);
    let ghost old_vec = hs@;
    let mut h = PairHistory::new(key, history_size);
    h.push(spread_bps);
    hs.push(h);
    assert(histories_view(hs@) =~= v.push(pair_view(h)));
    assert(histories_view(hs@) =~= spec_record(v, history_size, key@, spread_bps));
    proof {
        lemma_find_none_distinct(v, key@);
        assert forall|x: int, y: int| 0 <= x < y < histories_view(hs@).len() implies histories_view(hs@)[x].0 != histories_view(hs@)[y].0 by {
            if y < v.len() {
                assert(v[x].0 != v[y].0);
            } else {
                assert(v[x].0 != key@);
            }
        }
    }
    hs
}

/// The display state: one history per pool pair.
pub struct SpreadDisplay {
    /// History per pool pair, in the order the pairs first appeared; no two
    /// share a key.
    pair_histories: Vec<PairHistory>,
    /// Display threshold in bps.
    min_display_bps: i32,
    /// History capacity per pair.
    history_size: usize,
    /// Block number at last update.
    last_block: u64,
    /// Alert sound enabled.
    alert_sound: bool,
}

/// What the display knows of each of these pairs.
pub open spec fn histories_view(hs: Seq<PairHistory>) -> Seq<(Seq<char>, Seq<i32>, usize)> {
    hs.map_values(|p: PairHistory| pair_view(p))
}

impl SpreadDisplay {
    /// The pairs as the display knows them.
    pub closed spec fn pairs(&self) -> Seq<(Seq<char>, Seq<i32>, usize)> {
        histories_view(self.pair_histories@)
    }

    /// The display threshold in bps.
    pub closed spec fn spec_min_display_bps(&self) -> i32 {
        self.min_display_bps
    }

    /// The history capacity per pair.
    pub closed spec fn spec_history_size(&self) -> usize {
        self.history_size
    }

    /// The block number at the last update.
    pub closed spec fn spec_last_block(&self) -> u64 {
        self.last_block
    }

    /// Whether the alert sound is on.
    pub closed spec fn spec_alert_sound(&self) -> bool {
        self.alert_sound
    }

    /// No two pairs share a key.
    #[verifier::type_invariant]
    spec fn keys_distinct(&self) -> bool {
        keys_unique(self.pairs())
    }

    /// The pair histories, in the order the pairs first appeared.
    pub fn pair_histories(&self) -> (r: &Vec<PairHistory>)
        ensures
            histories_view(r@) == self.pairs(),
    {
        &self.pair_histories
    }

    /// The display threshold in bps.
    pub fn min_display_bps(&self) -> (r: i32)
        ensures
            r == self.spec_min_display_bps(),
    {
        self.min_display_bps
    }

    pub fn new(min_display_bps: i32, history_size: usize) -> (r: Self)
        ensures
            r.pairs() == Seq::<(Seq<char>, Seq<i32>, usize)>::empty(),
            r.spec_min_display_bps() == min_display_bps,
            r.spec_history_size() == history_size,
            r.spec_last_block() == 0,
            r.spec_alert_sound(),
    {
        let hs: Vec<PairHistory> = Vec::new();
        assert(histories_view(hs@) =~= Seq::<(Seq<char>, Seq<i32>, usize)>::empty());
        SpreadDisplay { pair_histories: hs, min_display_bps, history_size, last_block: 0, alert_sound: true }
    }

    /// Record the latest net spread (bps) of the pair `key`.
    pub fn record(&mut self, key: String, spread_bps: i32)
        ensures
            final(self).pairs() == spec_record(
                old(self).pairs(),
                old(self).spec_history_size(),
                key@,
                spread_bps,
            ),
            final(self).spec_min_display_bps() == old(self).spec_min_display_bps(),
            final(self).spec_history_size() == old(self).spec_history_size(),
            final(self).spec_last_block() == old(self).spec_last_block(),
            final(self).spec_alert_sound() == old(self).spec_alert_sound(),
    {
        proof {
            use_type_invariant(&*self);
        }
        let mut hs: Vec<PairHistory> = Vec::new();
        std::mem::swap(&mut self.pair_histories, &mut hs);
        let updated = record_in(hs, key, spread_bps, self.history_size);
        self.pair_histories = updated;
    }

    /// A one-line status of the best pair, for non-interactive output.
    pub fn render_oneline(&self) -> (r: String)
        ensures
            r@ == spec_oneline(self.pairs()),
    {
        let ghost v = self.pairs();
        let n = self.pair_histories.len();
        let mut best: Option<usize> = None;
        let mut i: usize = 0;
        while i < n
            invariant
                n == self.pair_histories.len(),
                v == self.pairs(),
                i <= n,
                best matches Some(b) ==> b < i,
                best matches Some(b) ==> self.pair_histories@[b as int].history@.len() > 0,
                spec_best_upto(v, i as int) == match best {
                    Some(b) => Some(b as int),
                    None => None::<int>,
                },
            decreases n - i,
        {
            let len = self.pair_histories[i].history.len();
            assert(v[i as int] == pair_view(self.pair_histories@[i as int]));
            proof {
                if let Some(b) = best {
                    assert(v[b as int] == pair_view(self.pair_histories@[b as int]));
                }
            }
            if len > 0 {
                let last = self.pair_histories[i].history[len - 1];
                match best {
                    None => {
                        best = Some(i);
                    },
                    Some(b) => {
                        let bl = self.pair_histories[b].history.len();
                        let blast = self.pair_histories[b].history[bl - 1];
                        if last >= blast {
                            best = Some(i);
                        }
                    },
                }
            }
            i = i + 1;
        }
        let mut s = String::new();
        proof {
            if let Some(b) = best {
                assert(v[b as int] == pair_view(self.pair_histories@[b as int]));
            }
        }
        match best {
            Some(b) => {
                let bl = self.pair_histories[b].history.len();
                let spread = self.pair_histories[b].history[bl - 1];
                let level = SpreadLevel::from_bps(spread);
                push_str(&mut s, level.color_code());
                push_str(&mut s, "[");
                push_signed_right(&mut s, spread, 4);
                push_str(&mut s, "bps] ");
                push_left_aligned(&mut s, self.pair_histories[b].pair_key.as_str(), 25);
                push_str(&mut s, " ");
                push_str(&mut s, level.label());
                push_str(&mut s, "\x1b[0m");
            },
            None => {
                push_str(&mut s, "\x1b[90mNo active spreads\x1b[0m");
            },
        }
        s
    }

    /// The live view of the spreads: `now` is the wall-clock time shown,
    /// `age_ms` the time since the last update.
    pub fn render(&self, now: &str, block_number: Option<u64>, age_ms: u128) -> (r: String)
        requires
            forall|i: int| 0 <= i < self.pairs().len() ==> spec_drawable(#[trigger] self.pairs()[i]),
        ensures
            exists|order: Seq<usize>|
                #[trigger] spec_ranked(self.pairs(), self.spec_min_display_bps(), order) && r@ == spec_live_view(
                    self.pairs(),
                    self.spec_min_display_bps(),
                    now@,
                    block_number,
                    age_ms,
                    order,
                ),
    {
        let ghost v = self.pairs();
        let mut s = String::new();
        push_str(&mut s, "\x1b[2K\r\x1b[1;36m[");
        push_str(&mut s, now);
        push_str(&mut s, "] Block: ");
        match block_number {
            Some(b) => push_decimal(&mut s, b as u128),
            None => push_str(&mut s, "?"),
        }
        push_str(&mut s, " | Pairs: ");
        push_decimal(&mut s, self.pair_histories.len() as u128);
        push_str(&mut s, " | Filter: >");
        push_signed_decimal(&mut s, self.min_display_bps as i64);
        push_str(&mut s, "bps\x1b[0m\n");
        let ghost header = s@;
        let order = self.ranked_pairs(self.min_display_bps);
        if order.len() == 0 {
            push_str(&mut s, "\x1b[2K  \x1b[90mNo spreads above ");
            push_signed_decimal(&mut s, self.min_display_bps as i64);
            push_str(&mut s, "bps threshold\x1b[0m\n");
        } else {
            push_str(&mut s, "\x1b[2K  \x1b[1mPAIR                       NET BPS  LEVEL   →    SPARKLINE      AGE\x1b[0m\n\x1b[2K  ──────────────────────────────────────────────────────────────────────\n");
            let ghost head = s@;
            let shown: usize = if order.len() <= 10 {
                order.len()
            } else {
                10
            };
            let ghost sh = if order@.len() <= 10 {
                order@
            } else {
                order@.take(10)
            };
            assert(sh =~= order@.take(shown as int));
            let mut k: usize = 0;
            while k < shown
                invariant
                    v == self.pairs(),
                    forall|i: int| 0 <= i < v.len() ==> spec_drawable(#[trigger] v[i]),
                    spec_ranked(v, self.min_display_bps, order@),
                    shown <= order@.len(),
                    k <= shown,
                    s@ == head + spec_table_rows(v, order@.take(k as int), age_ms),
                decreases shown - k,
            {
                let idx = order[k];
                assert(is_active(v, order@[k as int] as int, self.min_display_bps));
                assert(v[idx as int] == pair_view(self.pair_histories@[idx as int]));
                push_table_row(&mut s, &self.pair_histories[idx], age_ms);
                proof {
                    assert(order@.take(k + 1).drop_last() =~= order@.take(k as int));
                    assert(order@.take(k + 1).last() == order@[k as int]);
                }
                k = k + 1;
            }
        }
        push_str(&mut s, "\x1b[2K  ──────────────────────────────────────────────────────────────────────\n\x1b[2K  \x1b[90mLevels: \x1b[37mNOISE(<5)\x1b[90m | \x1b[33mWATCH(5-9)\x1b[90m | \x1b[32mREADY(10-14)\x1b[90m | \x1b[1;32mHOT(15-24)\x1b[90m | \x1b[1;5;32mGO(25+)\x1b[0m\n");
        assert(s@ == spec_live_view(v, self.min_display_bps, now@, block_number, age_ms, order@));
        assert(spec_ranked(self.pairs(), self.spec_min_display_bps(), order@));
        s
    }

    /// The dashboard's spread section: the pairs with a history, highest
    /// latest spread first, at most eight rows, padded to eight.
    pub fn render_spread_section(&self) -> (r: String)
        requires
            forall|i: int| 0 <= i < self.pairs().len() ==> spec_drawable(#[trigger] self.pairs()[i]),
        ensures
            exists|order: Seq<usize>|
                #[trigger] spec_ranked(self.pairs(), i32::MIN, order) && r@ == spec_spread_section(self.pairs(), order),
    {
        let ghost v = self.pairs();
        let order = self.ranked_pairs(i32::MIN);
        let shown: usize = if order.len() <= 8 {
            order.len()
        } else {
            8
        };
        let ghost sh = if order@.len() <= 8 {
            order@
        } else {
            order@.take(8)
        };
        assert(sh =~= order@.take(shown as int));
        let mut s = String::new();
        push_str(&mut s, "\x1b[2K\n\x1b[2K\x1b[1m  SPREAD OPPORTUNITIES\x1b[0m\n\x1b[2K  ─────────────────────────────────────────────────────────────────────\n\x1b[2K  PAIR                            NET   LEVEL            TREND     ACTION\n\x1b[2K  ─────────────────────────────────────────────────────────────────────\n");
        let ghost head = s@;
        let mut k: usize = 0;
        while k < shown
            invariant
                v == self.pairs(),
                forall|i: int| 0 <= i < v.len() ==> spec_drawable(#[trigger] v[i]),
                spec_ranked(v, i32::MIN, order@),
                shown <= order@.len(),
                k <= shown,
                s@ == head + spec_rows(v, order@.take(k as int)),
            decreases shown - k,
        {
            let idx = order[k];
            assert(is_active(v, order@[k as int] as int, i32::MIN));
            assert(v[idx as int] == pair_view(self.pair_histories@[idx as int]));
            assert(spec_drawable(v[idx as int]));
            push_spread_row(&mut s, &self.pair_histories[idx]);
            proof {
                assert(order@.take(k + 1).drop_last() =~= order@.take(k as int));
                assert(order@.take(k + 1).last() == order@[k as int]);
            }
            k = k + 1;
        }
        let ghost rows = s@;
        let mut b: usize = shown;
        while b < 8
            invariant
                shown <= b <= 8,
                s@ == rows + spec_blank_rows((b - shown) as nat),
            decreases 8 - b,
        {
            push_str(&mut s, "\x1b[2K\n");
            b = b + 1;
        }
        assert(s@ == spec_spread_section(v, order@));
        s
    }

    /// The pairs whose latest spread is at least `min_bps`, highest spread
    /// first (pair order among equal spreads).
    pub fn ranked_pairs(&self, min_bps: i32) -> (r: Vec<usize>)
        ensures
            spec_ranked(self.pairs(), min_bps, r@),
    {
        let ghost v = self.pairs();
        let n = self.pair_histories.len();
        let mut r: Vec<usize> = Vec::new();
        let mut i: usize = 0;
        while i < n
            invariant
                n == self.pair_histories.len(),
                v == self.pairs(),
                i <= n,
                forall|k: int| 0 <= k < r@.len() ==> is_active(v, #[trigger] r@[k] as int, min_bps),
                forall|k: int| 0 <= k < r@.len() ==> #[trigger] r@[k] < i,
                forall|j: int| 0 <= j < i && is_active(v, j, min_bps) ==> r@.contains(j as usize),
                forall|a: int, b: int|
                    0 <= a < b < r@.len() ==> ranks_before(v, #[trigger] r@[a] as int, #[trigger] r@[b] as int),
            decreases n - i,
        {
            let len = self.pair_histories[i].history.len();
            assert(v[i as int] == pair_view(self.pair_histories@[i as int]));
            if len > 0 && self.pair_histories[i].history[len - 1] >= min_bps {
                let last = self.pair_histories[i].history[len - 1];
                // every pair listed so far comes earlier, so the new one goes
                // after all those with a spread at least as high
                let mut pos: usize = 0;
                while pos < r.len()
                    invariant
                        n == self.pair_histories.len(),
                        v == self.pairs(),
                        i < n,
                        last == v[i as int].1.last(),
                        v[i as int].1.len() > 0,
                        pos <= r.len(),
                        forall|k: int| 0 <= k < pos ==> ranks_before(v, #[trigger] r@[k] as int, i as int),
                        forall|k: int| 0 <= k < r@.len() ==> is_active(v, #[trigger] r@[k] as int, min_bps),
                        forall|k: int| 0 <= k < r@.len() ==> #[trigger] r@[k] < i,
                        forall|a: int, b: int|
                            0 <= a < b < r@.len() ==> ranks_before(v, #[trigger] r@[a] as int, #[trigger] r@[b] as int),
                    ensures
                        pos <= r.len(),
                        forall|k: int| 0 <= k < pos ==> ranks_before(v, #[trigger] r@[k] as int, i as int),
                        pos < r.len() ==> v[r@[pos as int] as int].1.last() < v[i as int].1.last(),
                    decreases r.len() - pos,
                {
                    let p = r[pos];
                    assert(is_active(v, r@[pos as int] as int, min_bps));
                    assert(v[p as int] == pair_view(self.pair_histories@[p as int]));
                    let pl = self.pair_histories[p].history.len();
                    if self.pair_histories[p].history[pl - 1] < last {
                        break;
                    }
                    pos = pos + 1;
                }
                let ghost old_r = r@;
                proof {
                    lemma_insert_position(v, old_r, pos as int, i as int);
                }
                r.insert(pos, i);
                proof {
                    assert(r@ == old_r.insert(pos as int, i));
                    assert forall|j: int| 0 <= j < i + 1 && is_active(v, j, min_bps) implies r@.contains(j as usize) by {
                        if j < i {
                            let k = choose|k: int| 0 <= k < old_r.len() && old_r[k] == j as usize;
                            if k < pos {
                                assert(r@[k] == j as usize);
                            } else {
                                assert(r@[k + 1] == j as usize);
                            }
                        } else {
                            assert(r@[pos as int] == i);
                        }
                    }
                }
            }
            i = i + 1;
        }
        r
    }
}

/// Where the new last pair goes: after every listed pair with a spread at
/// least as high, and before the others; the order then still holds.
proof fn lemma_insert_position(v: Seq<(Seq<char>, Seq<i32>, usize)>, r: Seq<usize>, pos: int, i: int)
    requires
        0 <= pos <= r.len(),
        0 <= i < v.len(),
        i <= usize::MAX,
        v[i].1.len() > 0,
        forall|k: int| 0 <= k < pos ==> ranks_before(v, #[trigger] r[k] as int, i),
        pos < r.len() ==> v[r[pos] as int].1.last() < v[i].1.last(),
        forall|k: int| 0 <= k < r.len() ==> #[trigger] r[k] < i,
        forall|a: int, b: int| 0 <= a < b < r.len() ==> ranks_before(v, #[trigger] r[a] as int, #[trigger] r[b] as int),
        forall|k: int| 0 <= k < r.len() ==> v[#[trigger] r[k] as int].1.len() > 0,
    ensures
        forall|a: int, b: int|
            0 <= a < b < r.insert(pos, i as usize).len() ==> ranks_before(
                v,
                #[trigger] r.insert(pos, i as usize)[a] as int,
                #[trigger] r.insert(pos, i as usize)[b] as int,
            ),
{
    let r2 = r.insert(pos, i as usize);
    assert forall|a: int, b: int| 0 <= a < b < r2.len() implies ranks_before(v, #[trigger] r2[a] as int, #[trigger] r2[b] as int) by {
        if b < pos {
            assert(r2[a] == r[a] && r2[b] == r[b]);
            assert(ranks_before(v, r[a] as int, r[b] as int));
        } else if b == pos {
            assert(r2[a] == r[a] && r2[b] == i as usize);
            assert(ranks_before(v, r[a] as int, i));
        } else if a == pos {
            assert(r2[a] == i as usize && r2[b] == r[b - 1]);
            assert(v[r[b - 1] as int].1.last() <= v[r[pos] as int].1.last()) by {
                if b - 1 > pos {
                    assert(ranks_before(v, r[pos] as int, r[b - 1] as int));
                }
            }
            assert(ranks_before(v, i, r[b - 1] as int));
        } else if a < pos {
            assert(r2[a] == r[a] && r2[b] == r[b - 1]);
            assert(ranks_before(v, r[a] as int, r[b - 1] as int));
        } else {
            assert(r2[a] == r[a - 1] && r2[b] == r[b - 1]);
            assert(ranks_before(v, r[a - 1] as int, r[b - 1] as int));
        }
    }
}

/// Finding the key in a prefix finds it in the whole sequence.
proof fn lemma_find_key_prefix(v: Seq<(Seq<char>, Seq<i32>, usize)>, key: Seq<char>, n: int)
    requires
        0 <= n <= v.len(),
        spec_find_key(v.subrange(0, n), key) is Some,
    ensures
        spec_find_key(v, key) == spec_find_key(v.subrange(0, n), key),
    decreases v.len() - n,
{
    if n < v.len() {
        assert(v.subrange(0, n + 1).drop_last() =~= v.subrange(0, n));
        lemma_find_key_prefix(v, key, n + 1);
    } else {
        assert(v.subrange(0, n) =~= v);
    }
}

/// A key that is not found differs from every key.
proof fn lemma_find_none_distinct(v: Seq<(Seq<char>, Seq<i32>, usize)>, key: Seq<char>)
    requires
        spec_find_key(v, key) is None,
    ensures
        forall|i: int| 0 <= i < v.len() ==> v[i].0 != key,
    decreases v.len(),
{
    if v.len() > 0 {
        lemma_find_none_distinct(v.drop_last(), key);
        assert forall|i: int| 0 <= i < v.len() implies v[i].0 != key by {
            if i < v.len() - 1 {
                assert(v.drop_last()[i] == v[i]);
            }
        }
    }
}

/// Every value lies between the minimum and the maximum.
proof fn lemma_seq_min_max_bound(s: Seq<i32>, i: int)
    requires
        0 <= i < s.len(),
    ensures
        seq_min(s) <= s[i] as int <= seq_max(s),
    decreases s.len(),
{
    if s.len() > 1 && i < s.len() - 1 {
        lemma_seq_min_max_bound(s.drop_last(), i);
    }
}

fn spark_char_exec(i: i32) -> (c: char)
    ensures
        c == spark_char(i as int),
{
    if i <= 0 {
        '▁'
    } else if i == 1 {
        '▂'
    } else if i == 2 {
        '▃'
    } else if i == 3 {
        '▄'
    } else if i == 4 {
        '▅'
    } else if i == 5 {
        '▆'
    } else if i == 6 {
        '▇'
    } else {
        '█'
    }
}

/// Recording a value keeps the history within its capacity (at least one
/// value is always kept), ends it with the new value, and keeps the newer
/// old values in order.
pub proof fn law_push_bounded(h: Seq<i32>, capacity: usize, x: i32)
    requires
        h.len() <= if capacity > 0 { capacity as int } else { 1 },
    ensures
        spec_push(h, capacity, x).len() <= if capacity > 0 { capacity as int } else { 1 },
        spec_push(h, capacity, x).last() == x,
        spec_push(h, capacity, x) == h.push(x).subrange(
            h.len() + 1 - spec_push(h, capacity, x).len(),
            h.len() + 1int,
        ),
{
    assert(spec_push(h, capacity, x) =~= h.push(x).subrange(
        h.len() + 1 - spec_push(h, capacity, x).len(),
        h.len() + 1int,
    ));
}

/// A sparkline has one bar per shown value, at most ten.
pub proof fn law_sparkline_length(h: Seq<i32>)
    requires
        h.len() > 0,
    ensures
        spec_sparkline(h).len() == if h.len() < 10 { h.len() as int } else { 10 },
{
}

/// A taller bar never stands for a smaller value: bar heights follow the
/// order of the values they show.
proof fn lemma_spark_index_ordered(a: int, b: int, range: int)
    requires
        0 <= a <= b,
        range > 0,
    ensures
        spark_index(a, 0, range) <= spark_index(b, 0, range),
{
    assert(a * 7 <= b * 7);
    assert((a * 7) / range <= (b * 7) / range) by (nonlinear_arith)
        requires
            0 <= a * 7 <= b * 7,
            range > 0,
    ;
}

/// Bars are drawn lowest first: a higher height gives a later bar character.
proof fn lemma_spark_char_ordered(a: int, b: int)
    requires
        a <= b,
    ensures
        spark_char(a) <= spark_char(b),
{
}

/// In a sparkline the window's smallest value is drawn as the lowest bar,
/// its largest as the highest bar when the window is not flat, and a larger
/// value never gets a lower bar than a smaller one.
pub proof fn law_sparkline_scale(h: Seq<i32>, i: int, j: int)
    requires
        0 <= i < spark_values(h).len(),
        0 <= j < spark_values(h).len(),
    ensures
        spark_values(h)[i] as int == seq_min(spark_values(h)) ==> spec_sparkline(h)[i] == '▁',
        spark_values(h)[i] as int == seq_max(spark_values(h)) && seq_max(spark_values(h))
            > seq_min(spark_values(h)) ==> spec_sparkline(h)[i] == '█',
        spark_values(h)[i] <= spark_values(h)[j] ==> spec_sparkline(h)[i] <= spec_sparkline(h)[j],
{
    let vals = spark_values(h);
    let min = seq_min(vals);
    let max = seq_max(vals);
    let range = if max - min > 1 { max - min } else { 1 };
    lemma_seq_min_max_bound(vals, i);
    lemma_seq_min_max_bound(vals, j);
    let di = vals[i] as int - min;
    let dj = vals[j] as int - min;
    assert(spark_index(vals[i] as int, min, range) == spark_index(di, 0, range));
    assert(spark_index(vals[j] as int, min, range) == spark_index(dj, 0, range));
    if di == 0 {
        assert(0int * 7 / range == 0) by (nonlinear_arith)
            requires
                range > 0,
        ;
    }
    if vals[i] as int == max && max > min {
        assert(di == range);
        assert((range * 7) / range == 7) by (nonlinear_arith)
            requires
                range > 0,
        ;
    }
    if vals[i] <= vals[j] {
        lemma_spark_index_ordered(di, dj, range);
        lemma_spark_char_ordered(spark_index(di, 0, range), spark_index(dj, 0, range));
    }
}

} // verus!
