//! The daemon's tunable settings.
//!
//! Settings the user changes at runtime through the public D-Bus API sit
//! in one [`TrackerConfig`] that the game check, the foreground source, the
//! session manager and the backup scheduler all read, so a saved value
//! takes effect on the next decision without a restart. Durations are
//! whole seconds.

use vstd::prelude::*;
use crate::gate::{GateConfig, GateConfigView};

verus! {

/// Seconds in an hour.
pub const SECONDS_PER_HOUR: u64 = 3600;

/// The shortest backup cadence, in seconds: shorter settings are raised
/// to it so a bad value cannot make the scheduler spin.
pub const MIN_INTERVAL_SECONDS: u64 = 3600;

/// Settings of the periodic database backup.
#[derive(Debug, Clone, Copy, PartialEq, Eq, Structural)]
pub struct BackupConfig {
    /// Seconds between snapshots while the daemon runs.
    pub interval_seconds: u64,
    /// Snapshots kept after each backup.
    pub retention: usize,
}

/// Every tunable daemon setting.
#[derive(Debug)]
pub struct TrackerConfig {
    /// The game check's knobs.
    pub gate: GateConfig,
    /// Seconds between a tracked game losing the foreground and its
    /// session closing.
    pub alt_tab_grace_seconds: u64,
    /// Whether losing the foreground pauses a session at all.
    pub pause_when_backgrounded: bool,
    /// Seconds of each idle interval credited as interactive time.
    pub idle_grace_seconds: u64,
    /// The backup scheduler's settings.
    pub backup: BackupConfig,
}

/// The mathematical content of a [`TrackerConfig`].
pub struct TrackerConfigView {
    pub gate: GateConfigView,
    pub alt_tab_grace_seconds: u64,
    pub pause_when_backgrounded: bool,
    pub idle_grace_seconds: u64,
    pub backup: BackupConfig,
}

impl View for TrackerConfig {
    type V = TrackerConfigView;

    open spec fn view(&self) -> TrackerConfigView {
        TrackerConfigView {
            gate: self.gate@,
            alt_tab_grace_seconds: self.alt_tab_grace_seconds,
            pause_when_backgrounded: self.pause_when_backgrounded,
            idle_grace_seconds: self.idle_grace_seconds,
            backup: self.backup,
        }
    }
}

impl Clone for TrackerConfig {
    fn clone(&self) -> (r: Self)
        ensures
            r@ == self@,
    {
        TrackerConfig {
            gate: self.gate.clone(),
            alt_tab_grace_seconds: self.alt_tab_grace_seconds,
            pause_when_backgrounded: self.pause_when_backgrounded,
            idle_grace_seconds: self.idle_grace_seconds,
            backup: self.backup,
        }
    }
}

/// `a * b`, saturating at `u64::MAX`.
pub open spec fn saturating_mul_u64(a: u64, b: u64) -> u64 {
    if a * b > u64::MAX {
        u64::MAX
    } else {
        (a * b) as u64
    }
}

/// `a * b`, saturating at `u64::MAX` (`u64::saturating_mul`).
pub fn saturating_mul(a: u64, b: u64) -> (r: u64)
    ensures
        r == saturating_mul_u64(a, b),
{
    match a.checked_mul(b) {
        Some(p) => p,
        None => u64::MAX,
    }
}

/// A count as a `usize`, saturating (`usize::try_from(..).unwrap_or(usize::MAX)`).
pub open spec fn count_as_usize(n: u64) -> usize {
    if n > usize::MAX {
        usize::MAX
    } else {
        n as usize
    }
}

/// A `u64` count as a `usize`, saturating.
pub fn count_to_usize(n: u64) -> (r: usize)
    ensures
        r == count_as_usize(n),
{
    if n as u128 > usize::MAX as u128 {
        usize::MAX
    } else {
        n as usize
    }
}

/// The backup settings stored as an interval in hours and a retention
/// count.
pub open spec fn backup_from_settings(interval_hours: u64, retention: u64) -> BackupConfig {
    BackupConfig {
        interval_seconds: saturating_mul_u64(interval_hours, SECONDS_PER_HOUR),
        retention: count_as_usize(retention),
    }
}

impl BackupConfig {
    /// The backup settings from an interval in hours and a retention count.
    pub fn from_settings(interval_hours: u64, retention: u64) -> (r: BackupConfig)
        ensures
            r == backup_from_settings(interval_hours, retention),
    {
        BackupConfig {
            interval_seconds: saturating_mul(interval_hours, SECONDS_PER_HOUR),
            retention: count_to_usize(retention),
        }
    }

    /// The interval the scheduler runs with.
    pub open spec fn clamped_interval(self) -> u64 {
        if self.interval_seconds < MIN_INTERVAL_SECONDS {
            MIN_INTERVAL_SECONDS
        } else {
            self.interval_seconds
        }
    }

    /// The settings the scheduler runs with: the interval raised to
    /// [`MIN_INTERVAL_SECONDS`], the retention raised to one.
    pub fn clamped(self) -> (r: BackupConfig)
        ensures
            r.interval_seconds == self.clamped_interval(),
            r.retention == (if self.retention < 1 {
                1
            } else {
                self.retention
            }),
    {
        BackupConfig {
            interval_seconds: if self.interval_seconds < MIN_INTERVAL_SECONDS {
                MIN_INTERVAL_SECONDS
            } else {
                self.interval_seconds
            },
            retention: if self.retention < 1 {
                1
            } else {
                self.retention
            },
        }
    }
}

impl TrackerConfig {
    /// The configuration from the stored settings: the default game-check settings with
    /// the stored GPU threshold, the grace windows in seconds, and the
    /// backup settings.
    pub fn from_settings(
        gpu_memory_threshold_bytes: u64,
        alt_tab_grace_seconds: u64,
        pause_when_backgrounded: bool,
        idle_grace_seconds: u64,
        backup_interval_hours: u64,
        backup_retention: u64,
    ) -> (r: TrackerConfig)
        ensures
            r@.gate.gpu_memory_threshold_bytes == gpu_memory_threshold_bytes,
            r@.gate.blocklist == crate::gate::default_blocklist_names(),
            r@.gate.launcher_env_vars == crate::gate::default_launcher_env_var_names(),
            r@.gate.foreground_source_launcher_env_vars
                == crate::gate::default_foreground_source_launcher_env_var_names(),
            r@.alt_tab_grace_seconds == alt_tab_grace_seconds,
            r@.pause_when_backgrounded == pause_when_backgrounded,
            r@.idle_grace_seconds == idle_grace_seconds,
            r@.backup == backup_from_settings(backup_interval_hours, backup_retention),
    {
        let mut gate = GateConfig::default();
        gate.gpu_memory_threshold_bytes = gpu_memory_threshold_bytes;
        TrackerConfig {
            gate,
            alt_tab_grace_seconds,
            pause_when_backgrounded,
            idle_grace_seconds,
            backup: BackupConfig::from_settings(backup_interval_hours, backup_retention),
        }
    }

    /// Apply a new backup interval, in hours, as the D-Bus setter does:
    /// raised to the scheduler's floor first, so the stored value is the
    /// one in use. Returns the hours to store.
    pub fn set_backup_interval_hours(&mut self, hours: u64) -> (r: u64)
        ensures
            r == (if hours < MIN_INTERVAL_SECONDS / SECONDS_PER_HOUR {
                MIN_INTERVAL_SECONDS / SECONDS_PER_HOUR
            } else {
                hours
            }),
            final(self)@.backup.interval_seconds == saturating_mul_u64(r, SECONDS_PER_HOUR),
            final(self)@.backup.retention == old(self)@.backup.retention,
            final(self)@.gate == old(self)@.gate,
            final(self)@.alt_tab_grace_seconds == old(self)@.alt_tab_grace_seconds,
            final(self)@.pause_when_backgrounded == old(self)@.pause_when_backgrounded,
            final(self)@.idle_grace_seconds == old(self)@.idle_grace_seconds,
    {
        let floor_hours = MIN_INTERVAL_SECONDS / SECONDS_PER_HOUR;
        let stored = if hours < floor_hours {
            floor_hours
        } else {
            hours
        };
        self.backup.interval_seconds = saturating_mul(stored, SECONDS_PER_HOUR);
        stored
    }

    /// Apply a new retention count as the D-Bus setter does: zero is
    /// raised to one. Returns the count to store.
    pub fn set_backup_retention_count(&mut self, count: u64) -> (r: u64)
        ensures
            r == (if count < 1 {
                1
            } else {
                count
            }),
            final(self)@.backup.retention == count_as_usize(r),
            final(self)@.backup.interval_seconds == old(self)@.backup.interval_seconds,
            final(self)@.gate == old(self)@.gate,
            final(self)@.alt_tab_grace_seconds == old(self)@.alt_tab_grace_seconds,
            final(self)@.pause_when_backgrounded == old(self)@.pause_when_backgrounded,
            final(self)@.idle_grace_seconds == old(self)@.idle_grace_seconds,
    {
        let stored = if count < 1 {
            1
        } else {
            count
        };
        self.backup.retention = count_to_usize(stored);
        stored
    }
}

/// A backup interval saved through the setter is already at or above the
/// scheduler's floor, so the scheduler runs with exactly the saved value:
/// what the user reads back is what is in effect.
pub proof fn lemma_saved_interval_is_used(hours: u64, cfg: BackupConfig)
    requires
        cfg.interval_seconds == saturating_mul_u64(
            (if hours < MIN_INTERVAL_SECONDS / SECONDS_PER_HOUR {
                MIN_INTERVAL_SECONDS / SECONDS_PER_HOUR
            } else {
                hours
            }),
            SECONDS_PER_HOUR,
        ),
    ensures
        cfg.clamped_interval() == cfg.interval_seconds,
{
}

} // verus!
