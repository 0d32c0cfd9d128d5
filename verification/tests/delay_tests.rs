use mentabotix::delay::BreakerDelay;
use mentabotix::delay::DelayStep;
use mentabotix::delay::MatchDelay;

/// Drives a wait whose breaker answers from a fixed script (and `false`
/// once the script runs out); returns the summed sleep time and the number
/// of breaker evaluations.
fn run_with_script(delay_ms: u64, interval_ms: u64, script: &[bool]) -> (u64, usize) {
    let mut wait = BreakerDelay::new(delay_ms, interval_ms);
    let mut slept: u64 = 0;
    let mut polls: usize = 0;
    loop {
        let answer = script.get(polls).copied().unwrap_or(false);
        polls += 1;
        match wait.poll(answer) {
            DelayStep::Done => break,
            DelayStep::Sleep(ms) => slept += ms,
        }
    }
    assert!(wait.is_finished());
    assert_eq!(wait.elapsed_ms(), slept);
    (slept, polls)
}

#[test]
fn never_broken_sleeps_the_whole_delay() {
    // delay 0.2 s, interval 0.05 s, breaker always false
    let (slept, polls) = run_with_script(200, 50, &[]);
    assert!(slept >= 200 && slept <= 250);
    assert_eq!(slept, 200);
    // one evaluation before the first sleep, one after each of 4 sleeps
    assert_eq!(polls, 5);
}

#[test]
fn breaker_true_at_once_skips_the_delay() {
    // delay 0.2 s, interval 0.05 s, breaker true on the first evaluation
    let (slept, polls) = run_with_script(200, 50, &[true]);
    assert_eq!(slept, 0);
    assert_eq!(polls, 1);
}

#[test]
fn uneven_delay_rounds_up_to_interval() {
    let (slept, _) = run_with_script(210, 50, &[]);
    assert_eq!(slept, 250);
}

#[test]
fn zero_delay_never_sleeps() {
    let (slept, polls) = run_with_script(0, 50, &[]);
    assert_eq!(slept, 0);
    assert_eq!(polls, 1);
}

#[test]
fn breaker_midway_stops_early() {
    // false, false, true: two sleeps happen before the breaker fires
    let (slept, polls) = run_with_script(200, 50, &[false, false, true]);
    assert_eq!(slept, 100);
    assert_eq!(polls, 3);
}

#[test]
fn delay_getters_report_configuration() {
    let wait = BreakerDelay::new(200, 50);
    assert_eq!(wait.delay_ms(), 200);
    assert_eq!(wait.interval_ms(), 50);
    assert_eq!(wait.elapsed_ms(), 0);
    assert!(!wait.is_finished());
}

/// Drives a value-reporting wait with consecutive integers as the breaker
/// values; returns the summed sleep time, the number of evaluations, and
/// the reported value.
fn run_match(delay_ms: u64, interval_ms: u64) -> (u64, usize, i32) {
    let mut wait: MatchDelay<i32> = MatchDelay::new(delay_ms, interval_ms);
    let mut slept: u64 = 0;
    let mut polls: i32 = 0;
    loop {
        polls += 1;
        match wait.poll(polls) {
            DelayStep::Done => break,
            DelayStep::Sleep(ms) => slept += ms,
        }
    }
    assert!(wait.is_finished());
    assert_eq!(wait.elapsed_ms(), slept);
    let value = wait.result();
    (slept, polls as usize, value)
}

#[test]
fn match_delay_always_runs_the_full_delay() {
    // the value-reporting variant never exits early, whatever comes back
    let (slept, polls, value) = run_match(200, 50);
    assert_eq!(slept, 200);
    assert_eq!(polls, 5);
    // it reports the latest value, the one seen after the final sleep
    assert_eq!(value, 5);
}

#[test]
fn match_delay_zero_delay_reports_first_value() {
    let (slept, polls, value) = run_match(0, 50);
    assert_eq!(slept, 0);
    assert_eq!(polls, 1);
    assert_eq!(value, 1);
}

#[test]
fn match_delay_rounds_up_like_the_boolean_wait() {
    let (slept, _, _) = run_match(120, 50);
    assert_eq!(slept, 150);
}
