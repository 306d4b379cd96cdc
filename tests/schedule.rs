use polly::schedule::{initial_delay, initial_delay_bound, Schedule, Tick, MAX_INITIAL_DELAY_MS};

#[test]
fn delay_bound_is_period_or_a_minute() {
    assert_eq!(initial_delay_bound(30_000), 30_000);
    assert_eq!(initial_delay_bound(3_600_000), MAX_INITIAL_DELAY_MS);
    assert_eq!(initial_delay_bound(60_000), 60_000);
}

#[test]
fn initial_delay_stays_below_bound() {
    assert_eq!(initial_delay(1), 0);
    for _ in 0..200 {
        assert!(initial_delay(10_000) < 10_000);
        assert!(initial_delay(3_600_000) < 60_000);
    }
}

#[test]
fn initial_delay_varies() {
    let draws: Vec<u64> = (0..50).map(|_| initial_delay(3_600_000)).collect();
    assert!(draws.iter().any(|&d| d != draws[0]));
}

#[test]
fn first_run_waits_for_the_offset() {
    let mut s = Schedule::start(1_000, 600_000, 2_500);
    assert_eq!(s.poll(1_000), Tick::Wait { until: 3_500 });
    assert_eq!(s.poll(3_499), Tick::Wait { until: 3_500 });
    assert_eq!(s.poll(3_500), Tick::Fire);
    assert_eq!(s.next_due, 603_500);
}

#[test]
fn on_time_runs_are_one_period_apart() {
    let mut s = Schedule::start(0, 1_000, 0);
    assert_eq!(s.poll(0), Tick::Fire);
    assert_eq!(s.next_due, 1_000);
    assert_eq!(s.poll(1_000), Tick::Fire);
    assert_eq!(s.next_due, 2_000);
    assert_eq!(s.poll(2_000), Tick::Fire);
    assert_eq!(s.next_due, 3_000);
}

#[test]
fn late_runs_delay_the_grid() {
    let mut s = Schedule::start(0, 1_000, 0);
    assert_eq!(s.poll(0), Tick::Fire);
    assert_eq!(s.poll(1_003), Tick::Fire);
    assert_eq!(s.next_due, 2_003);
    assert_eq!(s.poll(2_999), Tick::Fire);
    assert_eq!(s.next_due, 3_999);
}

#[test]
fn overrun_shorter_than_two_periods_restarts_from_late_run() {
    // Period 10; the run at 0 lasts 15: one catch-up at 15, the next at 25.
    let mut s = Schedule::start(0, 10, 0);
    assert_eq!(s.poll(0), Tick::Fire);
    assert_eq!(s.poll(15), Tick::Fire);
    assert_eq!(s.next_due, 25);
    assert_eq!(s.poll(20), Tick::Wait { until: 25 });
}

#[test]
fn overrun_catches_up_once() {
    let mut s = Schedule::start(0, 1_000, 0);
    assert_eq!(s.poll(0), Tick::Fire);
    // The run took 3.5 periods.
    assert_eq!(s.poll(3_500), Tick::Fire);
    assert_eq!(s.next_due, 4_500);
    assert_eq!(s.poll(3_500), Tick::Wait { until: 4_500 });
    assert_eq!(s.poll(4_499), Tick::Wait { until: 4_500 });
    assert_eq!(s.poll(4_500), Tick::Fire);
    assert_eq!(s.next_due, 5_500);
}
