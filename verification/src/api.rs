//! The public D-Bus API's payloads, signals and argument rules.
//!
//! The wire form of these types (their D-Bus signatures and serde
//! encoding) is added where the bus is served; here they are plain data.

use vstd::prelude::*;

verus! {

/// A session-lifecycle notification the session manager hands to the
/// D-Bus layer, which emits it as a signal.
#[derive(Debug, Clone, Copy, PartialEq, Eq, Structural)]
pub enum TrackerNotification {
    /// An application row was created for a newly seen game.
    ApplicationAdded { application_id: i64 },
    /// A session opened.
    SessionStarted { application_id: i64 },
    /// A session closed.
    SessionEnded {
        application_id: i64,
        full_runtime_seconds: i64,
        interactive_runtime_seconds: i64,
    },
}

/// One tracked application.
#[derive(Debug, Clone, PartialEq, Eq)]
pub struct ApplicationSummary {
    pub id: i64,
    pub launcher_type: String,
    pub launcher_id: String,
    pub product_name: String,
    pub publisher: String,
    pub total_full_seconds: i64,
    pub total_interactive_seconds: i64,
    pub run_count: i64,
    pub last_played_at: String,
    pub executable_path: String,
    pub first_seen_at: String,
    pub longest_full_seconds: i64,
}

/// Playtime of one day.
#[derive(Debug, Clone, PartialEq, Eq)]
pub struct DailyPlaytime {
    pub date: String,
    pub full_runtime_seconds: i64,
    pub interactive_runtime_seconds: i64,
    pub session_count: i64,
}

/// The on-disk backup set.
#[derive(Debug, Clone, PartialEq, Eq)]
pub struct BackupStats {
    pub directory: String,
    pub count: u64,
    pub total_bytes: u64,
    pub latest_at: String,
}

/// One (possibly merged) session.
#[derive(Debug, Clone, PartialEq, Eq)]
pub struct SessionSummary {
    pub id: i64,
    pub application_id: i64,
    pub product_name: String,
    pub started_at: String,
    pub ended_at: String,
    pub full_runtime_seconds: i64,
    pub interactive_runtime_seconds: i64,
    pub exit_reason: String,
    pub fragment_ids: Vec<i64>,
}

/// Most sessions one listing returns.
pub const MAX_SESSION_LIMIT: u32 = 1000;

/// Most days one playtime listing covers.
pub const MAX_PLAYTIME_DAYS: u32 = 3650;

/// `x` clamped into `lo..=hi`.
pub open spec fn clamp_u32(x: u32, lo: u32, hi: u32) -> u32 {
    if x < lo {
        lo
    } else if x > hi {
        hi
    } else {
        x
    }
}

/// The number of sessions a listing fetches: `limit` within `1..=1000`.
pub fn session_limit(limit: u32) -> (r: u32)
    ensures
        r == clamp_u32(limit, 1, MAX_SESSION_LIMIT),
{
    if limit < 1 {
        1
    } else if limit > MAX_SESSION_LIMIT {
        MAX_SESSION_LIMIT
    } else {
        limit
    }
}

/// The number of days a playtime listing covers: `days` within
/// `1..=3650`.
pub fn playtime_days(days: u32) -> (r: u32)
    ensures
        r == clamp_u32(days, 1, MAX_PLAYTIME_DAYS),
{
    if days < 1 {
        1
    } else if days > MAX_PLAYTIME_DAYS {
        MAX_PLAYTIME_DAYS
    } else {
        days
    }
}

} // verus!
