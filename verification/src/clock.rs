//! Readings of the kernel's monotonic and boot-time clocks, and the
//! whole seconds elapsed between two readings.
//!
//! `CLOCK_MONOTONIC` is what `std::time::Instant` reads on Linux: it
//! stops while the system is suspended. `CLOCK_BOOTTIME` keeps counting
//! through a suspend and, unlike the wall clock, is never stepped.

use vstd::prelude::*;
use rustix::time::{clock_gettime, ClockId};

verus! {

/// A clock reading: the duration since the clock's origin, as whole
/// seconds plus nanoseconds (the two parts of a `Duration`).
#[derive(Debug, Clone, Copy, PartialEq, Eq, Structural)]
pub struct ClockReading {
    /// Whole seconds.
    pub secs: u64,
    /// Nanoseconds on top of `secs`.
    pub nanos: u32,
}

/// The reading in nanoseconds.
pub open spec fn total_nanos(r: ClockReading) -> int {
    r.secs * 1_000_000_000 + r.nanos
}

/// Whole seconds from `from` to `to`, zero when `to` is not later (the
/// `as_secs` of a saturating `Duration` subtraction).
pub open spec fn elapsed_secs(from: ClockReading, to: ClockReading) -> nat {
    if total_nanos(to) <= total_nanos(from) {
        0
    } else {
        ((total_nanos(to) - total_nanos(from)) / 1_000_000_000) as nat
    }
}

/// `x` clamped to the range of `i64`.
pub open spec fn clamp_i64(x: int) -> i64 {
    if x > i64::MAX {
        i64::MAX
    } else if x < i64::MIN {
        i64::MIN
    } else {
        x as i64
    }
}

/// `a + b`, saturating at the bounds of `i64` (`i64::saturating_add`).
pub fn saturating_add_i64(a: i64, b: i64) -> (r: i64)
    ensures
        r == clamp_i64(a + b),
{
    match a.checked_add(b) {
        Some(s) => s,
        None => if b > 0 {
            i64::MAX
        } else {
            i64::MIN
        },
    }
}

/// `a - b`, saturating at the bounds of `i64` (`i64::saturating_sub`).
pub fn saturating_sub_i64(a: i64, b: i64) -> (r: i64)
    ensures
        r == clamp_i64(a - b),
{
    match a.checked_sub(b) {
        Some(s) => s,
        None => if b < 0 {
            i64::MAX
        } else {
            i64::MIN
        },
    }
}

/// Whole seconds elapsed from `from` to `to`, as an `i64` (saturating at
/// `i64::MAX`, as `i64::try_from(..).unwrap_or(i64::MAX)` does).
pub fn seconds_between(from: ClockReading, to: ClockReading) -> (r: i64)
    ensures
        r == clamp_i64(elapsed_secs(from, to) as int),
        r >= 0,
{
    let a: u128 = (from.secs as u128) * 1_000_000_000 + (from.nanos as u128);
    let b: u128 = (to.secs as u128) * 1_000_000_000 + (to.nanos as u128);
    if b <= a {
        return 0;
    }
    let d: u128 = (b - a) / 1_000_000_000;
    if d > (i64::MAX as u128) {
        i64::MAX
    } else {
        d as i64
    }
}

/// A reading from the two fields of a `timespec`, converted as
/// `Duration::new(u64::try_from(sec).unwrap_or(0), u32::try_from(nsec).unwrap_or(0))`
/// does.
pub fn reading_from_timespec(tv_sec: i64, tv_nsec: i64) -> (r: ClockReading)
    ensures
        r.secs == (if tv_sec >= 0 {
            tv_sec as u64
        } else {
            0
        }),
        r.nanos == (if 0 <= tv_nsec <= u32::MAX {
            tv_nsec as u32
        } else {
            0
        }),
{
    let secs: u64 = if tv_sec >= 0 {
        tv_sec as u64
    } else {
        0
    };
    let nanos: u32 = if 0 <= tv_nsec && tv_nsec <= (u32::MAX as i64) {
        tv_nsec as u32
    } else {
        0
    };
    ClockReading { secs, nanos }
}

/// Which kernel clock to read.
#[derive(Debug, Clone, Copy, PartialEq, Eq, Structural)]
pub enum ClockKind {
    /// `CLOCK_MONOTONIC`: stops during suspend.
    Monotonic,
    /// `CLOCK_BOOTTIME`: counts through suspend.
    Boottime,
}

/// `rustix::time::clock_gettime` on the chosen clock, as the two fields
/// of the returned `Timespec`. The reading itself is the time and is not
/// stated; only that its nanoseconds field lies in `0..1_000_000_000`, as
/// the POSIX `clock_gettime` that rustix documents it by requires of a
/// `timespec` it returns.
#[verifier::external_body]
fn read_timespec(kind: ClockKind) -> (r: (i64, i64))
    ensures
        0 <= r.1 < 1_000_000_000,
{
    let ts = match kind {
        ClockKind::Monotonic => clock_gettime(ClockId::Monotonic),
        ClockKind::Boottime => clock_gettime(ClockId::Boottime),
    };
    (ts.tv_sec, ts.tv_nsec)
}

/// The current reading of clock `kind`. Of the reading only its shape
/// is stated: two readings of the same clock may differ.
pub fn now(kind: ClockKind) -> (r: ClockReading)
    ensures
        r.nanos < 1_000_000_000,
{
    let (s, n) = read_timespec(kind);
    reading_from_timespec(s, n)
}

} // verus!
