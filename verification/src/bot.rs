//! The decisions of the arbitrage loops: when to stop or pause, when a
//! spread is taken, and how an attempt is counted.
//!
//! Each loop polls prices, executes and sleeps on its own; at every step it
//! asks these functions what to do and reports back what happened.

use crate::text::{push_signed_decimal, push_str, spec_signed_decimal};
use vstd::prelude::*;

verus! {

/// What a loop does at the start of a poll.
#[derive(Debug, Clone, Copy, PartialEq, Eq, Structural)]
pub enum PollStep {
    /// Leave the loop.
    Stop,
    /// Too many failures in a row: wait a minute, then start counting anew.
    Pause,
    /// Fetch prices and look for an opportunity.
    Poll,
}

/// The counters of a running loop.
#[derive(Debug, Clone, Copy, PartialEq, Eq, Structural)]
pub struct BotState {
    pub execution_count: u32,
    pub successful_arbs: u32,
    pub consecutive_failures: u32,
    /// When the last attempt was made (ms on the loop's clock); none yet.
    pub last_execution_ms: Option<u128>,
}

/// Cooldown between attempts in production.
pub const PROD_COOLDOWN_SECS: u64 = 10;

/// Pause (seconds) after too many failures in a row.
pub const FAILURE_PAUSE_SECS: u64 = 60;

/// A loop that has not tried anything yet.
pub fn new_bot_state() -> (r: BotState)
    ensures
        r == (BotState { execution_count: 0, successful_arbs: 0, consecutive_failures: 0, last_execution_ms: None }),
{
    BotState { execution_count: 0, successful_arbs: 0, consecutive_failures: 0, last_execution_ms: None }
}

/// The auto loop's decision: stop once it made `max_executions` attempts
/// (0: no limit), otherwise poll.
pub open spec fn spec_auto_poll(state: BotState, max_executions: u32) -> PollStep {
    if max_executions > 0 && state.execution_count >= max_executions {
        PollStep::Stop
    } else {
        PollStep::Poll
    }
}

/// The auto loop stops once it made `max_executions` attempts (0: no limit).
pub fn auto_poll_step(state: &BotState, max_executions: u32) -> (r: PollStep)
    ensures
        r == spec_auto_poll(*state, max_executions),
{
    if max_executions > 0 && state.execution_count >= max_executions {
        PollStep::Stop
    } else {
        PollStep::Poll
    }
}

/// The production loop's decision: stop once the day's loss limit is
/// passed, pause after `max_failures` failures in a row, otherwise poll.
pub open spec fn spec_prod_poll(state: BotState, max_failures: u32, loss_limit_passed: bool) -> PollStep {
    if loss_limit_passed {
        PollStep::Stop
    } else if state.consecutive_failures >= max_failures {
        PollStep::Pause
    } else {
        PollStep::Poll
    }
}

/// The production loop stops once the day's loss limit is passed, and
/// pauses after `max_failures` failures in a row.
pub fn prod_poll_step(state: &BotState, max_failures: u32, loss_limit_passed: bool) -> (r: PollStep)
    ensures
        r == spec_prod_poll(*state, max_failures, loss_limit_passed),
{
    if loss_limit_passed {
        PollStep::Stop
    } else if state.consecutive_failures >= max_failures {
        PollStep::Pause
    } else {
        PollStep::Poll
    }
}

/// After a pause the failure count starts again.
pub fn after_pause(state: &mut BotState)
    ensures
        *final(state) == (BotState { consecutive_failures: 0, ..*old(state) }),
{
    state.consecutive_failures = 0;
}

/// Whether the cooldown since the last attempt has passed, counting whole
/// seconds (it has when nothing was tried yet).
pub open spec fn spec_cooldown_elapsed(state: BotState, cooldown_secs: u64, now_ms: u128) -> bool {
    match state.last_execution_ms {
        None => true,
        Some(t) => (now_ms - t) / 1000 >= cooldown_secs,
    }
}

/// Whether the cooldown since the last attempt has passed.
pub fn cooldown_elapsed(state: &BotState, cooldown_secs: u64, now_ms: u128) -> (r: bool)
    requires
        state.last_execution_ms matches Some(t) ==> t <= now_ms,
    ensures
        r == spec_cooldown_elapsed(*state, cooldown_secs, now_ms),
{
    match state.last_execution_ms {
        None => true,
        Some(t) => (now_ms - t) / 1000 >= cooldown_secs as u128,
    }
}

/// A spread is taken when it reaches the threshold and the cooldown has
/// passed.
pub fn should_execute(state: &BotState, min_spread_bps: i32, net_spread_bps: i32, cooldown_secs: u64, now_ms: u128) -> (r: bool)
    requires
        state.last_execution_ms matches Some(t) ==> t <= now_ms,
    ensures
        r == (net_spread_bps >= min_spread_bps && spec_cooldown_elapsed(*state, cooldown_secs, now_ms)),
{
    net_spread_bps >= min_spread_bps && cooldown_elapsed(state, cooldown_secs, now_ms)
}

/// Count an attempt made at `now_ms`. A profitable success resets the
/// failure count; anything else adds a failure.
pub fn record_attempt(state: &mut BotState, now_ms: u128, profitable_success: bool)
    requires
        old(state).execution_count < u32::MAX,
        profitable_success ==> old(state).successful_arbs < u32::MAX,
        !profitable_success ==> old(state).consecutive_failures < u32::MAX,
    ensures
        final(state).execution_count == old(state).execution_count + 1,
        final(state).last_execution_ms == Some(now_ms),
        profitable_success ==> final(state).successful_arbs == old(state).successful_arbs + 1
            && final(state).consecutive_failures == 0,
        !profitable_success ==> final(state).successful_arbs == old(state).successful_arbs
            && final(state).consecutive_failures == old(state).consecutive_failures + 1,
{
    if profitable_success {
        state.successful_arbs = state.successful_arbs + 1;
        state.consecutive_failures = 0;
    } else {
        state.consecutive_failures = state.consecutive_failures + 1;
    }
    state.last_execution_ms = Some(now_ms);
    state.execution_count = state.execution_count + 1;
}

/// Count an attempt that was only simulated (dry run): it counts and
/// starts the cooldown, nothing else.
pub fn record_dry_run(state: &mut BotState, now_ms: u128)
    requires
        old(state).execution_count < u32::MAX,
    ensures
        *final(state) == (BotState {
            execution_count: (old(state).execution_count + 1) as u32,
            last_execution_ms: Some(now_ms),
            ..*old(state)
        }),
{
    state.last_execution_ms = Some(now_ms);
    state.execution_count = state.execution_count + 1;
}

/// "Production mode requires positive min_spread_bps. Got: `n`. Use
/// --min-spread-bps with a positive value."
pub open spec fn spec_prod_config_error(min_spread_bps: i32) -> Seq<char> {
    "Production mode requires positive min_spread_bps. Got: "@ + spec_signed_decimal(min_spread_bps as int)
        + ". Use --min-spread-bps with a positive value."@
}

/// Production needs a positive spread threshold.
pub fn validate_prod_config(min_spread_bps: i32) -> (r: Result<(), String>)
    ensures
        min_spread_bps > 0 ==> r is Ok,
        min_spread_bps <= 0 ==> (r matches Err(e) && e@ == spec_prod_config_error(min_spread_bps)),
{
    if min_spread_bps <= 0 {
        let mut s = String::new();
        push_str(&mut s, "Production mode requires positive min_spread_bps. Got: ");
        push_signed_decimal(&mut s, min_spread_bps as i64);
        push_str(&mut s, ". Use --min-spread-bps with a positive value.");
        return Err(s);
    }
    Ok(())
}

/// The auto loop never makes more attempts than its limit: when it is
/// told to poll (and may then attempt once), the count after that attempt
/// is still within the limit.
pub proof fn law_auto_attempts_bounded(state: BotState, max_executions: u32)
    requires
        max_executions > 0,
        state.execution_count <= max_executions,
        !(max_executions > 0 && state.execution_count >= max_executions),
    ensures
        state.execution_count + 1 <= max_executions,
{
}

/// Attempts are spaced by the cooldown: right after an attempt at `t`, a
/// spread is not taken again before `t + cooldown` seconds.
pub proof fn law_cooldown_spacing(state: BotState, t: u128, cooldown_secs: u64, now_ms: u128)
    requires
        state.last_execution_ms == Some(t),
        t <= now_ms,
        now_ms < t + (cooldown_secs as int) * 1000,
    ensures
        !spec_cooldown_elapsed(state, cooldown_secs, now_ms),
{
    assert((now_ms - t) / 1000 < cooldown_secs) by (nonlinear_arith)
        requires
            0 <= now_ms - t < (cooldown_secs as int) * 1000,
    ;
}

/// A whole run of the auto loop never goes past its limit: take the states
/// it goes through, starting from a fresh one, where each poll was allowed
/// by `auto_poll_step` and made at most one attempt (counted by
/// `record_attempt` or `record_dry_run`). Then no state counts more than
/// `max_executions` attempts, and the run's last state, if the limit was
/// reached, is one the loop stops at.
pub proof fn law_auto_run_bounded(states: Seq<BotState>, max_executions: u32)
    requires
        max_executions > 0,
        states.len() > 0,
        states[0].execution_count == 0,
        forall|i: int|
            0 <= i < states.len() - 1 ==> spec_auto_poll(#[trigger] states[i], max_executions) == PollStep::Poll
                && (states[i + 1].execution_count == states[i].execution_count || states[i + 1].execution_count
                == states[i].execution_count + 1),
    ensures
        forall|i: int| 0 <= i < states.len() ==> #[trigger] states[i].execution_count <= max_executions,
        states.last().execution_count == max_executions ==> spec_auto_poll(states.last(), max_executions)
            == PollStep::Stop,
{
    assert forall|i: int| 0 <= i < states.len() implies #[trigger] states[i].execution_count <= max_executions by {
        lemma_auto_prefix_bounded(states, max_executions, i);
    }
}

proof fn lemma_auto_prefix_bounded(states: Seq<BotState>, max_executions: u32, i: int)
    requires
        max_executions > 0,
        0 <= i < states.len(),
        states[0].execution_count == 0,
        forall|j: int|
            0 <= j < states.len() - 1 ==> spec_auto_poll(#[trigger] states[j], max_executions) == PollStep::Poll
                && (states[j + 1].execution_count == states[j].execution_count || states[j + 1].execution_count
                == states[j].execution_count + 1),
    ensures
        states[i].execution_count <= max_executions,
    decreases i,
{
    if i > 0 {
        lemma_auto_prefix_bounded(states, max_executions, i - 1);
        assert(spec_auto_poll(states[i - 1], max_executions) == PollStep::Poll);
    }
}

/// A whole run of the production loop: take the states it goes through,
/// starting with no failure in a row, and whether the loss limit had been
/// passed at each poll, where the loop went on (`prod_poll_step` did not
/// stop it), a pause reset the failure count (`after_pause`) and a poll made
/// at most one attempt (`record_attempt` adds at most one failure). Then the
/// loss limit was never passed while the loop went on, and the failures in
/// a row never exceed `max_failures`: no attempt is made after
/// `max_failures` failures until the pause has reset the count.
pub proof fn law_prod_run(states: Seq<BotState>, loss_passed: Seq<bool>, max_failures: u32)
    requires
        states.len() > 0,
        loss_passed.len() == states.len(),
        states[0].consecutive_failures == 0,
        forall|i: int|
            0 <= i < states.len() - 1 ==> {
                let step = spec_prod_poll(#[trigger] states[i], max_failures, loss_passed[i]);
                &&& step != PollStep::Stop
                &&& step == PollStep::Pause ==> states[i + 1].consecutive_failures == 0
                &&& step == PollStep::Poll ==> states[i + 1].consecutive_failures <= states[i].consecutive_failures
                    + 1
            },
    ensures
        forall|i: int| 0 <= i < states.len() - 1 ==> !#[trigger] loss_passed[i],
        forall|i: int| 0 <= i < states.len() ==> #[trigger] states[i].consecutive_failures <= max_failures,
{
    assert forall|i: int| 0 <= i < states.len() - 1 implies !#[trigger] loss_passed[i] by {
        assert(spec_prod_poll(states[i], max_failures, loss_passed[i]) != PollStep::Stop);
    }
    assert forall|i: int| 0 <= i < states.len() implies #[trigger] states[i].consecutive_failures <= max_failures by {
        lemma_prod_prefix(states, loss_passed, max_failures, i);
    }
}

proof fn lemma_prod_prefix(states: Seq<BotState>, loss_passed: Seq<bool>, max_failures: u32, i: int)
    requires
        0 <= i < states.len(),
        loss_passed.len() == states.len(),
        states[0].consecutive_failures == 0,
        forall|j: int|
            0 <= j < states.len() - 1 ==> {
                let step = spec_prod_poll(#[trigger] states[j], max_failures, loss_passed[j]);
                &&& step != PollStep::Stop
                &&& step == PollStep::Pause ==> states[j + 1].consecutive_failures == 0
                &&& step == PollStep::Poll ==> states[j + 1].consecutive_failures <= states[j].consecutive_failures
                    + 1
            },
    ensures
        states[i].consecutive_failures <= max_failures,
    decreases i,
{
    if i > 0 {
        lemma_prod_prefix(states, loss_passed, max_failures, i - 1);
        let step = spec_prod_poll(states[i - 1], max_failures, loss_passed[i - 1]);
        assert(step != PollStep::Stop);
    }
}

} // verus!
