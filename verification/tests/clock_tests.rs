use exec_runtime::clock::{target_interval_ns, ClockSync, NANOS_PER_SECOND};

const MS: u64 = 1_000_000;

#[test]
fn target_interval_is_reciprocal_of_frequency() {
    assert_eq!(target_interval_ns(0), 0);
    assert_eq!(target_interval_ns(10), 100 * MS);
    assert_eq!(target_interval_ns(1000), MS);
    assert_eq!(target_interval_ns(NANOS_PER_SECOND + 1), 0);
}

#[test]
fn frequency_zero_never_sleeps() {
    let mut sync = ClockSync::new();
    let mut now: u64 = 5;
    for _ in 0..4 {
        assert_eq!(sync.sync(now, 0), 0);
        sync.observe_wake(now);
        now += 123;
    }
    assert_eq!(sync.drift, 0);
}

#[test]
fn first_cycle_has_nothing_to_pace() {
    let mut sync = ClockSync::new();
    assert_eq!(sync.sync(1_000, 10), 0);
    sync.observe_wake(1_000);
    assert_eq!(sync.last_cycle_start, Some(1_000));
}

#[test]
fn paced_at_ten_hertz_average_interval_stays_at_least_99ms() {
    // One hundred cycles of trivial work (1ms each) with a sleeper that
    // honors the commanded duration exactly.
    let mut sync = ClockSync::new();
    sync.sync(0, 10);
    sync.observe_wake(0);
    let start: u64 = 0;
    let mut woke: u64 = 0;
    for _ in 0..100 {
        let now = woke + MS; // the cycle's work took 1ms
        let sleep = sync.sync(now, 10);
        woke = now + sleep;
        sync.observe_wake(woke);
    }
    let total = woke - start;
    let average = total / 100;
    assert!(average >= 99 * MS, "average interval {average}ns fell below 99ms");
    assert_eq!(average, 100 * MS);
}

#[test]
fn oversleep_is_paid_back_from_later_sleeps() {
    let mut sync = ClockSync::new();
    sync.sync(0, 10);
    sync.observe_wake(0);
    // Work 10ms, commanded sleep 90ms, but the sleeper oversleeps by 30ms.
    let sleep = sync.sync(10 * MS, 10);
    assert_eq!(sleep, 90 * MS);
    sync.observe_wake(130 * MS);
    assert_eq!(sync.drift, 30 * MS);
    // Next cycle: 10ms of work; the 90ms remainder is shortened by the debt.
    let sleep = sync.sync(140 * MS, 10);
    assert_eq!(sleep, 60 * MS);
    sync.observe_wake(200 * MS);
    assert_eq!(sync.drift, 0);
}

#[test]
fn slow_cycles_are_not_paced() {
    let mut sync = ClockSync::new();
    sync.sync(0, 10);
    sync.observe_wake(0);
    // The work alone took longer than the 100ms target interval.
    let sleep = sync.sync(150 * MS, 10);
    assert_eq!(sleep, 0);
    sync.observe_wake(150 * MS);
    assert_eq!(sync.drift, 0);
}
