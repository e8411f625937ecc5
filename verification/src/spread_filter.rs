//! Whether a spread is worth executing, from how it moved before the
//! trigger.
//!
//! The velocity comparisons are made by the caller on its floating-point
//! velocity; the decision order and the integer thresholds are here.

use vstd::prelude::*;

verus! {

/// The verdict on a spread.
#[derive(Debug, Clone, Copy)]
pub enum FilterResult {
    Execute,
    Skip { reason: &'static str },
}

/// The integer thresholds of the filter.
#[derive(Debug, Clone, Copy, PartialEq, Eq, Structural)]
pub struct SpreadThresholds {
    /// Net spread (bps) needed at the trigger, to leave a margin.
    pub min_final_spread: i32,
    /// Highest spread (bps) allowed at the start of the window.
    pub max_baseline: i32,
}

/// The default thresholds: 9 bps at the trigger, at most 2 bps at start.
pub fn default_thresholds() -> (r: SpreadThresholds)
    ensures
        r == (SpreadThresholds { min_final_spread: 9, max_baseline: 2 }),
{
    SpreadThresholds { min_final_spread: 9, max_baseline: 2 }
}

/// Why a spread is skipped, in the order the checks are made.
pub open spec fn spec_filter(
    t: SpreadThresholds,
    velocity_above_max: bool,
    velocity_below_min: bool,
    baseline: i32,
    final_spread: i32,
) -> FilterResult {
    if velocity_above_max {
        FilterResult::Skip { reason: "velocity too high - bot signature detected" }
    } else if velocity_below_min && baseline == final_spread {
        FilterResult::Skip { reason: "dead spread - no momentum" }
    } else if final_spread < t.min_final_spread {
        FilterResult::Skip { reason: "spread too thin for margin" }
    } else if baseline > t.max_baseline {
        FilterResult::Skip { reason: "baseline elevated - late to opportunity" }
    } else {
        FilterResult::Execute
    }
}

/// Judge a spread: a velocity above the maximum is another bot's arbitrage;
/// a slow spread that did not move is dead; the final spread must leave a
/// margin; a baseline already up means a late entry. `velocity_above_max`
/// and `velocity_below_min` are the velocity (bps/s) above the maximum and
/// its magnitude below the minimum.
pub fn evaluate_spread(
    t: &SpreadThresholds,
    velocity_above_max: bool,
    velocity_below_min: bool,
    baseline: i32,
    final_spread: i32,
) -> (r: FilterResult)
    ensures
        r == spec_filter(*t, velocity_above_max, velocity_below_min, baseline, final_spread),
{
    if velocity_above_max {
        return FilterResult::Skip { reason: "velocity too high - bot signature detected" };
    }
    if velocity_below_min && baseline == final_spread {
        return FilterResult::Skip { reason: "dead spread - no momentum" };
    }
    if final_spread < t.min_final_spread {
        return FilterResult::Skip { reason: "spread too thin for margin" };
    }
    if baseline > t.max_baseline {
        return FilterResult::Skip { reason: "baseline elevated - late to opportunity" };
    }
    FilterResult::Execute
}

/// The margin test looks at the final spread alone: when neither velocity
/// test stops a spread and its baseline is not elevated, it is executed
/// exactly when the final spread reaches the minimum. A velocity above the
/// maximum always skips, and a final spread below the minimum is never
/// executed.
pub proof fn law_filter_margin(
    t: SpreadThresholds,
    velocity_above_max: bool,
    velocity_below_min: bool,
    baseline: i32,
    final_spread: i32,
)
    ensures
        !velocity_above_max && !(velocity_below_min && baseline == final_spread) && baseline <= t.max_baseline ==> (
        spec_filter(t, velocity_above_max, velocity_below_min, baseline, final_spread) is Execute <==> final_spread
            >= t.min_final_spread),
        velocity_above_max ==> spec_filter(t, velocity_above_max, velocity_below_min, baseline, final_spread) is Skip,
        final_spread < t.min_final_spread ==> spec_filter(t, velocity_above_max, velocity_below_min, baseline, final_spread) is Skip,
        baseline > t.max_baseline ==> spec_filter(t, velocity_above_max, velocity_below_min, baseline, final_spread) is Skip,
{
}

} // verus!
