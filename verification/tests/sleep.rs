use ludex::clock::ClockReading;
use ludex::sleep::SleepTracker;

fn secs(s: u64) -> ClockReading {
    ClockReading { secs: s, nanos: 0 }
}

fn anchored_tracker() -> (SleepTracker, u64, u64) {
    let boot = 1_000;
    let mono = 50_000;
    (SleepTracker::anchored(secs(boot), secs(mono)), boot, mono)
}

#[test]
fn sleep_default_is_zero() {
    let t = SleepTracker::new();
    assert_eq!(t.accumulated_suspended_seconds(), 0);
}

#[test]
fn record_suspended_interval_accumulates() {
    let mut t = SleepTracker::new();
    t.record_suspended_interval(60);
    t.record_suspended_interval(120);
    assert_eq!(t.accumulated_suspended_seconds(), 180);
}

#[test]
fn tick_under_normal_operation_is_zero() {
    let mut t = SleepTracker::new();
    assert_eq!(t.tick(), 0);
    assert_eq!(t.accumulated_suspended_seconds(), 0);
}

#[test]
fn equal_boot_and_mono_advance_is_not_suspend() {
    let (mut t, boot, mono) = anchored_tracker();
    assert_eq!(t.observe(secs(boot + 3_600), secs(mono + 3_600)), 0);
    assert_eq!(t.accumulated_suspended_seconds(), 0);
}

#[test]
fn boottime_ahead_of_monotonic_records_suspend() {
    let (mut t, boot, mono) = anchored_tracker();
    assert_eq!(t.observe(secs(boot + 100), secs(mono + 10)), 90);
    assert_eq!(t.accumulated_suspended_seconds(), 90);
}

#[test]
fn sub_threshold_drift_is_ignored() {
    let (mut t, boot, mono) = anchored_tracker();
    assert_eq!(t.observe(secs(boot + 14), secs(mono + 10)), 0);
    assert_eq!(t.accumulated_suspended_seconds(), 0);
}

#[test]
fn suspends_accumulate_across_observations() {
    let (mut t, boot, mono) = anchored_tracker();
    assert_eq!(t.observe(secs(boot + 70), secs(mono + 10)), 60);
    assert_eq!(t.observe(secs(boot + 100), secs(mono + 40)), 0);
    assert_eq!(t.observe(secs(boot + 400), secs(mono + 100)), 240);
    assert_eq!(t.accumulated_suspended_seconds(), 300);
}

#[test]
fn monotonic_ahead_of_boottime_clamps_to_zero() {
    let (mut t, boot, mono) = anchored_tracker();
    assert_eq!(t.observe(secs(boot + 5), secs(mono + 10)), 0);
    assert_eq!(t.accumulated_suspended_seconds(), 0);
}

#[test]
fn drift_exactly_at_threshold_counts() {
    let (mut t, boot, mono) = anchored_tracker();
    assert_eq!(t.observe(secs(boot + 15), secs(mono + 10)), 5);
}

#[test]
fn whole_seconds_are_compared() {
    let (mut t, boot, mono) = anchored_tracker();
    // 5.9 s of boot time against 0 s of monotonic time: 5 whole seconds.
    let b = ClockReading { secs: boot + 5, nanos: 900_000_000 };
    assert_eq!(t.observe(b, secs(mono)), 5);
}
