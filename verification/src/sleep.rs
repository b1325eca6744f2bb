//! System-suspend accounting for runtime.
//!
//! The session manager subtracts suspended seconds from a session's full
//! runtime, so a night with the laptop lid closed does not count as play.
//!
//! Suspends are found by clock drift: on every tick the advance of
//! `CLOCK_BOOTTIME` is compared with the advance of `CLOCK_MONOTONIC`.
//! Awake, the two advance in lockstep; suspended, boot time keeps
//! counting while monotonic time stops, and the difference is exactly the
//! suspend. Boot time is never stepped by NTP, so a corrected wall clock
//! does not read as a suspend. Drift below a threshold is read skew
//! between the two clock fetches, not a suspend.

use vstd::prelude::*;
use crate::clock::{
    clamp_i64, elapsed_secs, now, saturating_add_i64, saturating_sub_i64, seconds_between,
    ClockKind, ClockReading,
};

verus! {

/// Drift below this many seconds is clock-read skew, not a suspend.
pub const MIN_SUSPEND_THRESHOLD_SECONDS: i64 = 5;

/// Polling cadence of the watcher task, in seconds: the most a detected
/// suspend lags behind the wake-up.
pub const DEFAULT_TICK_SECONDS: u64 = 10;

/// Seconds the system spent suspended since the tracker was made.
#[derive(Debug)]
pub struct SleepTracker {
    total_suspended_seconds: i64,
    last_boot: ClockReading,
    last_mono: ClockReading,
}

/// The mathematical content of a [`SleepTracker`].
pub struct SleepView {
    /// Suspended seconds so far.
    pub total: i64,
    /// Boot-time reading at the last observation.
    pub last_boot: ClockReading,
    /// Monotonic reading at the last observation.
    pub last_mono: ClockReading,
}

impl View for SleepTracker {
    type V = SleepView;

    closed spec fn view(&self) -> SleepView {
        SleepView {
            total: self.total_suspended_seconds,
            last_boot: self.last_boot,
            last_mono: self.last_mono,
        }
    }
}

/// Seconds the boot clock ran ahead of the monotonic clock between the
/// last observation and `(now_boot, now_mono)`, never negative.
pub open spec fn drift_of(v: SleepView, now_boot: ClockReading, now_mono: ClockReading) -> i64 {
    let d = clamp_i64(
        clamp_i64(elapsed_secs(v.last_boot, now_boot) as int) - clamp_i64(
            elapsed_secs(v.last_mono, now_mono) as int,
        ),
    );
    if d > 0 {
        d
    } else {
        0
    }
}

/// The suspend an observation detects: the drift when it reaches the
/// threshold, else nothing.
pub open spec fn detected_suspend(
    v: SleepView,
    now_boot: ClockReading,
    now_mono: ClockReading,
) -> i64 {
    if drift_of(v, now_boot, now_mono) >= MIN_SUSPEND_THRESHOLD_SECONDS {
        drift_of(v, now_boot, now_mono)
    } else {
        0
    }
}

impl SleepTracker {
    /// A tracker with nothing accumulated, anchored at the given boot-time
    /// and monotonic readings.
    pub fn anchored(boot: ClockReading, mono: ClockReading) -> (r: Self)
        ensures
            r@.total == 0,
            r@.last_boot == boot,
            r@.last_mono == mono,
    {
        SleepTracker { total_suspended_seconds: 0, last_boot: boot, last_mono: mono }
    }

    /// A tracker with nothing accumulated, anchored at the present.
    pub fn new() -> (r: Self)
        ensures
            r@.total == 0,
    {
        let boot = now(ClockKind::Boottime);
        let mono = now(ClockKind::Monotonic);
        Self::anchored(boot, mono)
    }

    /// Suspended seconds so far.
    pub fn accumulated_suspended_seconds(&self) -> (r: i64)
        ensures
            r == self@.total,
    {
        self.total_suspended_seconds
    }

    /// Compare the clocks' advances since the last observation with the
    /// readings `now_boot` and `now_mono`; record and return the suspend
    /// this detects (zero on an ordinary tick).
    pub fn observe(&mut self, now_boot: ClockReading, now_mono: ClockReading) -> (r: i64)
        ensures
            r == detected_suspend(old(self)@, now_boot, now_mono),
            final(self)@.total == clamp_i64(old(self)@.total + r),
            final(self)@.last_boot == now_boot,
            final(self)@.last_mono == now_mono,
    {
        let boot_delta = seconds_between(self.last_boot, now_boot);
        let mono_delta = seconds_between(self.last_mono, now_mono);
        let d = saturating_sub_i64(boot_delta, mono_delta);
        let drift = if d > 0 {
            d
        } else {
            0
        };
        let accepted = if drift >= MIN_SUSPEND_THRESHOLD_SECONDS {
            drift
        } else {
            0
        };
        self.total_suspended_seconds = saturating_add_i64(self.total_suspended_seconds, accepted);
        self.last_boot = now_boot;
        self.last_mono = now_mono;
        accepted
    }

    /// [`Self::observe`] with the clocks read now.
    pub fn tick(&mut self) -> (r: i64)
        ensures
            exists|b: ClockReading, m: ClockReading|
                r == detected_suspend(old(self)@, b, m) && final(self)@.total == clamp_i64(
                    old(self)@.total + r,
                ) && final(self)@.last_boot == b && final(self)@.last_mono == m,
    {
        let boot = now(ClockKind::Boottime);
        let mono = now(ClockKind::Monotonic);
        self.observe(boot, mono)
    }

    /// Add `seconds` to the accumulated suspend, saturating.
    pub fn record_suspended_interval(&mut self, seconds: i64)
        ensures
            final(self)@.total == clamp_i64(old(self)@.total + seconds),
            final(self)@.last_boot == old(self)@.last_boot,
            final(self)@.last_mono == old(self)@.last_mono,
    {
        self.total_suspended_seconds = saturating_add_i64(self.total_suspended_seconds, seconds);
    }
}

// ---------------------------------------------------------------------
// Laws of suspend detection.
// ---------------------------------------------------------------------

/// An observation detects either nothing or a suspend of at least the
/// threshold, never a negative one; so it never lowers the total.
pub proof fn lemma_detection_bounds(v: SleepView, now_boot: ClockReading, now_mono: ClockReading)
    ensures
        detected_suspend(v, now_boot, now_mono) == 0 || detected_suspend(v, now_boot, now_mono)
            >= MIN_SUSPEND_THRESHOLD_SECONDS,
        clamp_i64(v.total + detected_suspend(v, now_boot, now_mono)) >= v.total,
{
}

/// Both clocks advancing by the same whole seconds is awake time, however
/// much of it passes: nothing is detected.
pub proof fn lemma_lockstep_is_awake(v: SleepView, now_boot: ClockReading, now_mono: ClockReading)
    requires
        elapsed_secs(v.last_boot, now_boot) == elapsed_secs(v.last_mono, now_mono),
    ensures
        detected_suspend(v, now_boot, now_mono) == 0,
{
}

/// Monotonic time running ahead of boot time (read skew; it cannot
/// happen on real hardware) is never credited as a suspend.
pub proof fn lemma_monotonic_ahead_is_awake(
    v: SleepView,
    now_boot: ClockReading,
    now_mono: ClockReading,
)
    requires
        elapsed_secs(v.last_boot, now_boot) <= elapsed_secs(v.last_mono, now_mono),
    ensures
        detected_suspend(v, now_boot, now_mono) == 0,
{
}

} // verus!
