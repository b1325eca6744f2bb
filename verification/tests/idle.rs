use ludex::clock::ClockReading;
use ludex::idle::IdleTracker;
use ludex::idle_wayland::{
    binding_targets, event_to_idle, first_connect_step, handle_notification_event,
    handle_notification_event_at, next_backoff_secs, no_globals, FirstConnectStep, IdleEvent,
    SetupProblem, RECONNECT_BACKOFF_MAX_SECS,
};
use std::time::{Duration, Instant};

fn sleep(d: Duration) {
    let start = Instant::now();
    while start.elapsed() < d {
        std::hint::spin_loop();
    }
}

fn at(secs: u64) -> ClockReading {
    ClockReading { secs, nanos: 0 }
}

#[test]
fn idle_default_is_zero() {
    let t = IdleTracker::new();
    assert_eq!(t.accumulated_idle_seconds(), 0);
    assert!(!t.is_idle());
}

#[test]
fn record_idle_interval_accumulates() {
    let mut t = IdleTracker::new();
    t.record_idle_interval(30);
    assert_eq!(t.accumulated_idle_seconds(), 30);
    t.record_idle_interval(5);
    assert_eq!(t.accumulated_idle_seconds(), 35);
}

#[test]
fn currently_idle_counts_open_interval() {
    let mut t = IdleTracker::new();
    t.record_idle_interval(10);
    t.set_idle(true);
    assert!(t.accumulated_idle_seconds() >= 10);
}

#[test]
fn closed_intervals_count_grows_on_seal() {
    let mut t = IdleTracker::new();
    assert_eq!(t.closed_intervals_count(), 0);
    t.set_idle(true);
    assert_eq!(t.closed_intervals_count(), 0);
    t.set_idle(false);
    assert_eq!(t.closed_intervals_count(), 1);
    t.record_idle_interval(7);
    assert_eq!(t.closed_intervals_count(), 2);
}

#[test]
fn billable_short_intervals_under_grace_are_fully_forgiven() {
    let mut t = IdleTracker::new();
    t.record_idle_interval(120);
    t.record_idle_interval(180);
    assert_eq!(t.billable_idle_seconds_since(0, 0, 300), 0);
}

#[test]
fn billable_long_interval_is_billed_minus_grace() {
    let mut t = IdleTracker::new();
    t.record_idle_interval(30 * 60);
    assert_eq!(t.billable_idle_seconds_since(0, 0, 5 * 60), 25 * 60);
}

#[test]
fn billable_baseline_skips_intervals_before_session_start() {
    let mut t = IdleTracker::new();
    t.record_idle_interval(30 * 60);
    let baseline = t.closed_intervals_count();
    t.record_idle_interval(10 * 60);
    assert_eq!(t.billable_idle_seconds_since(baseline, 0, 5 * 60), 5 * 60);
}

#[test]
fn billable_per_interval_grace_does_not_pool_across_two_short_intervals() {
    let mut t = IdleTracker::new();
    t.record_idle_interval(4 * 60);
    t.record_idle_interval(4 * 60);
    assert_eq!(t.billable_idle_seconds_since(0, 0, 5 * 60), 0);
}

#[test]
fn billable_currently_open_interval_is_included_with_forgiveness() {
    let mut t = IdleTracker::new();
    t.record_idle_interval(10 * 60);
    t.set_idle(true);
    let billable = t.billable_idle_seconds_since(0, 0, 5 * 60);
    assert_eq!(billable, 5 * 60);
}

#[test]
fn billable_subtracts_pre_session_open_interval() {
    let mut t = IdleTracker::new();
    t.record_idle_interval(300);
    assert_eq!(t.billable_idle_seconds_since(0, 100, 30), 200);
}

#[test]
fn billable_open_baseline_below_grace_forgives_grace_once() {
    let mut t = IdleTracker::new();
    t.record_idle_interval(300);
    assert_eq!(t.billable_idle_seconds_since(0, 10, 30), 270);
}

#[test]
fn billable_pre_session_open_affects_only_first_interval() {
    let mut t = IdleTracker::new();
    t.record_idle_interval(300);
    t.record_idle_interval(50);
    assert_eq!(t.billable_idle_seconds_since(0, 100, 0), 250);
}

#[test]
fn billable_zero_open_baseline_is_unchanged() {
    let mut t = IdleTracker::new();
    t.record_idle_interval(30 * 60);
    assert_eq!(
        t.billable_idle_seconds_since(0, 0, 5 * 60),
        25 * 60,
        "with nothing open at start, billing is plain interval-minus-grace",
    );
}

#[test]
fn sealing_at_a_reading_records_whole_elapsed_seconds() {
    let mut t = IdleTracker::new();
    t.set_idle_at(true, ClockReading { secs: 100, nanos: 500_000_000 });
    assert_eq!(t.accumulated_idle_seconds_at(at(190)), 89);
    t.set_idle_at(false, at(190));
    assert_eq!(t.closed_intervals_count(), 1);
    assert_eq!(t.accumulated_idle_seconds_at(at(10_000)), 89);
}

#[test]
fn repeated_idle_reports_keep_the_first_start() {
    let mut t = IdleTracker::new();
    t.set_idle_at(true, at(10));
    t.set_idle_at(true, at(50));
    t.set_idle_at(false, at(70));
    assert_eq!(t.accumulated_idle_seconds_at(at(70)), 60);
    t.set_idle_at(false, at(80));
    assert_eq!(t.closed_intervals_count(), 1);
}

#[test]
fn session_baseline_counts_open_elapsed_and_bills_nothing_at_start() {
    let mut t = IdleTracker::new();
    t.record_idle_interval(1000);
    t.set_idle_at(true, at(100));
    let (count, open) = t.session_start_baseline_at(at(160));
    assert_eq!((count, open), (1, 60));
    assert_eq!(t.billable_idle_seconds_at(count, open, 30, at(160)), 0);
    // 100 more idle seconds in the session: the grace was already spent
    // before it, so all of them are billed.
    assert_eq!(t.billable_idle_seconds_at(count, open, 30, at(260)), 100);
    t.set_idle_at(false, at(260));
    assert_eq!(t.billable_idle_seconds_at(count, open, 30, at(260)), 100);
}

#[test]
fn accumulated_total_saturates() {
    let mut t = IdleTracker::new();
    t.record_idle_interval(i64::MAX);
    t.record_idle_interval(5);
    assert_eq!(t.accumulated_idle_seconds(), i64::MAX);
}

#[test]
fn range_check_flags_unrepresentable_forgiveness() {
    let mut t = IdleTracker::new();
    t.record_idle_interval(i64::MIN);
    assert!(!t.billable_in_range(0, 0, 1, at(0)));
    assert!(t.billable_in_range(0, 0, 0, at(0)));
}

#[test]
fn set_idle_closes_interval_on_transition_out() {
    let mut t = IdleTracker::new();
    t.set_idle(true);
    assert!(t.is_idle());
    sleep(Duration::from_millis(50));
    t.set_idle(false);
    assert!(!t.is_idle());
    let acc = t.accumulated_idle_seconds();
    assert!(acc >= 0);
}

#[test]
fn duplicate_idle_true_is_idempotent() {
    let mut t = IdleTracker::new();
    t.set_idle(true);
    sleep(Duration::from_millis(10));
    t.set_idle(true);
    sleep(Duration::from_millis(10));
    t.set_idle(false);
    let _ = t.accumulated_idle_seconds();
    assert_eq!(t.closed_intervals_count(), 1);
}

// ---- wayland idle notifications ----

#[test]
fn idled_event_opens_interval_and_resumed_seals_it() {
    let mut t = IdleTracker::new();
    handle_notification_event(&mut t, IdleEvent::Idled);
    assert!(t.is_idle());
    handle_notification_event(&mut t, IdleEvent::Resumed);
    assert!(!t.is_idle());
    assert_eq!(t.closed_intervals_count(), 1);
}

#[test]
fn duplicate_idled_events_do_not_open_a_second_interval() {
    let mut t = IdleTracker::new();
    handle_notification_event(&mut t, IdleEvent::Idled);
    handle_notification_event(&mut t, IdleEvent::Idled);
    handle_notification_event(&mut t, IdleEvent::Resumed);
    assert_eq!(t.closed_intervals_count(), 1);
    assert!(!t.is_idle());
}

#[test]
fn notification_events_at_readings_seal_whole_seconds() {
    let mut t = IdleTracker::new();
    handle_notification_event_at(&mut t, IdleEvent::Idled, at(100));
    handle_notification_event_at(&mut t, IdleEvent::Other, at(110));
    assert!(t.is_idle());
    handle_notification_event_at(&mut t, IdleEvent::Resumed, at(142));
    assert_eq!(t.accumulated_idle_seconds_at(at(200)), 42);
    assert_eq!(event_to_idle(IdleEvent::Other), None);
    assert_eq!(event_to_idle(IdleEvent::Idled), Some(true));
}

#[test]
fn reconnect_backoff_doubles_up_to_the_cap() {
    assert_eq!(next_backoff_secs(1), 2);
    assert_eq!(next_backoff_secs(40), RECONNECT_BACKOFF_MAX_SECS);
    assert_eq!(next_backoff_secs(RECONNECT_BACKOFF_MAX_SECS), RECONNECT_BACKOFF_MAX_SECS);
}

#[test]
fn setup_needs_seat_and_recent_notifier() {
    let mut g = no_globals();
    g.note(1, "wl_seat", 7);
    assert_eq!(binding_targets(g), Err(SetupProblem::NoNotifier));
    g.note(2, "ext_idle_notifier_v1", 1);
    assert_eq!(binding_targets(g), Err(SetupProblem::NotifierTooOld(1)));
    let mut h = no_globals();
    h.note(3, "ext_idle_notifier_v1", 2);
    assert_eq!(binding_targets(h), Err(SetupProblem::NoSeat));
    h.note(4, "wl_seat", 9);
    h.note(5, "wl_seat", 9);
    h.note(6, "wl_output", 4);
    assert_eq!(binding_targets(h), Ok((3, 4)));
    assert!(SetupProblem::NotifierTooOld(1).is_definitive());
    assert!(!SetupProblem::NoSeat.is_definitive());
    assert_eq!(first_connect_step(true, false), FirstConnectStep::GiveUp);
    assert_eq!(first_connect_step(false, true), FirstConnectStep::GiveUp);
    assert_eq!(first_connect_step(false, false), FirstConnectStep::Retry);
}
