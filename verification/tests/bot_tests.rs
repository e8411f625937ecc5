use monad_arb::bot::{
    after_pause, auto_poll_step, cooldown_elapsed, new_bot_state, prod_poll_step, record_attempt,
    record_dry_run, should_execute, validate_prod_config, PollStep,
};

#[test]
fn auto_loop_stops_at_limit() {
    let mut s = new_bot_state();
    assert_eq!(auto_poll_step(&s, 2), PollStep::Poll);
    record_attempt(&mut s, 1_000, true);
    record_dry_run(&mut s, 2_000);
    assert_eq!(s.execution_count, 2);
    assert_eq!(auto_poll_step(&s, 2), PollStep::Stop);
    assert_eq!(auto_poll_step(&s, 0), PollStep::Poll);
}

#[test]
fn cooldown_and_threshold() {
    let mut s = new_bot_state();
    assert!(cooldown_elapsed(&s, 10, 0));
    assert!(should_execute(&s, 5, 5, 10, 0));
    assert!(!should_execute(&s, 5, 4, 10, 0));
    record_attempt(&mut s, 1_000, false);
    assert!(!cooldown_elapsed(&s, 10, 10_999));
    assert!(cooldown_elapsed(&s, 10, 11_000));
    assert!(!should_execute(&s, 5, 50, 10, 5_000));
}

#[test]
fn prod_loop_pauses_and_stops() {
    let mut s = new_bot_state();
    record_attempt(&mut s, 0, false);
    record_attempt(&mut s, 1, false);
    assert_eq!(s.consecutive_failures, 2);
    assert_eq!(prod_poll_step(&s, 2, false), PollStep::Pause);
    assert_eq!(prod_poll_step(&s, 2, true), PollStep::Stop);
    after_pause(&mut s);
    assert_eq!(prod_poll_step(&s, 2, false), PollStep::Poll);
    record_attempt(&mut s, 2, true);
    assert_eq!(s.successful_arbs, 1);
    assert_eq!(s.consecutive_failures, 0);
    assert_eq!(s.execution_count, 3);
}

#[test]
fn prod_needs_positive_threshold() {
    assert_eq!(validate_prod_config(10), Ok(()));
    assert_eq!(
        validate_prod_config(0),
        Err("Production mode requires positive min_spread_bps. Got: 0. Use --min-spread-bps with a positive value.".to_string())
    );
    assert_eq!(
        validate_prod_config(-3),
        Err("Production mode requires positive min_spread_bps. Got: -3. Use --min-spread-bps with a positive value.".to_string())
    );
}

#[test]
fn auto_run_stops_at_its_limit() {
    let mut state = new_bot_state();
    let mut polls = 0;
    let mut now: u128 = 0;
    while auto_poll_step(&state, 3) == PollStep::Poll {
        polls += 1;
        now += 20_000;
        if polls % 2 == 0 {
            record_dry_run(&mut state, now);
        } else {
            record_attempt(&mut state, now, false);
        }
        assert!(state.execution_count <= 3);
    }
    assert_eq!(state.execution_count, 3);
    assert_eq!(polls, 3);
}

#[test]
fn prod_run_pauses_before_exceeding_failures() {
    let mut state = new_bot_state();
    let mut pauses = 0;
    for tick in 0..10u128 {
        match prod_poll_step(&state, 2, false) {
            PollStep::Stop => panic!("no loss limit was passed"),
            PollStep::Pause => {
                pauses += 1;
                after_pause(&mut state);
            }
            PollStep::Poll => record_attempt(&mut state, tick * 20_000, false),
        }
        assert!(state.consecutive_failures <= 2);
    }
    assert!(pauses >= 3);
    assert_eq!(prod_poll_step(&state, 2, true), PollStep::Stop);
}
