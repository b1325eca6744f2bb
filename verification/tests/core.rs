use ludex::api::{playtime_days, session_limit, MAX_PLAYTIME_DAYS, MAX_SESSION_LIMIT};
use ludex::clock::{now, reading_from_timespec, saturating_add_i64, saturating_sub_i64, seconds_between, ClockKind, ClockReading};
use ludex::config::{saturating_mul, BackupConfig, TrackerConfig, MIN_INTERVAL_SECONDS};
use ludex::idle::IdleTracker;
use ludex::key::{GameKey, LauncherType};
use ludex::paths::{ancestor_directories, extension_is, join, paths_equal, starts_with_path};
use ludex::session::{
    grace_as_i64, runtimes_computable, runtimes_for, start_verdict, BlockedKeys, OpenSession,
    OpenSessions, StartVerdict,
};
use ludex::sources::kwin::source::{is_own_window, parse_activation, pidfd_target, PidfdTargetError};
use ludex::vdf::{parse_all_values, parse_top_level_string, parse_top_level_u64};

fn at(secs: u64) -> ClockReading {
    ClockReading { secs, nanos: 0 }
}

fn session(id: i64, started: u64) -> OpenSession {
    OpenSession {
        session_id: id,
        application_id: 10 + id,
        baseline_idle_intervals_count: 0,
        baseline_open_idle_seconds: 0,
        started: at(started),
    }
}

// ---- sessions ----

#[test]
fn started_key_opens_one_session_and_duplicates_are_dropped() {
    let mut open = OpenSessions::new();
    let blocked = BlockedKeys::new();
    let key = GameKey::steam("440");
    assert_eq!(start_verdict(&blocked, &open, &key), StartVerdict::Open);
    assert!(open.insert(key.clone(), session(1, 100)));
    assert_eq!(start_verdict(&blocked, &open, &key), StartVerdict::AlreadyOpen);
    assert!(!open.insert(key.clone(), session(2, 200)));
    assert_eq!(open.len(), 1);
    assert_eq!(open.remove(&key), Some(session(1, 100)));
    assert!(open.is_empty());
    assert_eq!(open.remove(&key), None);
}

#[test]
fn blocked_keys_drop_starts_until_unblocked() {
    let mut blocked = BlockedKeys::new();
    let open = OpenSessions::new();
    let key = GameKey::native("/usr/bin/game");
    assert!(blocked.insert(key.clone()));
    assert!(!blocked.insert(key.clone()));
    assert_eq!(start_verdict(&blocked, &open, &key), StartVerdict::Blocked);
    assert!(blocked.remove(&key));
    assert!(!blocked.contains(&key));
    assert_eq!(start_verdict(&blocked, &open, &key), StartVerdict::Open);
}

#[test]
fn drain_closes_every_open_session() {
    let mut open = OpenSessions::new();
    open.insert(GameKey::steam("1"), session(1, 0));
    open.insert(GameKey::heroic("abc"), session(2, 0));
    open.insert(GameKey::lutris("uuid"), session(3, 0));
    let mut all = open.values();
    all.sort_by_key(|o| o.session_id);
    assert_eq!(all.len(), 3);
    let mut drained = open.drain();
    drained.sort_by_key(|o| o.session_id);
    assert_eq!(drained, all);
    assert!(open.is_empty());
}

#[test]
fn idle_time_reduces_interactive_runtime() {
    let mut idle = IdleTracker::new();
    let s = session(1, 1000);
    idle.set_idle_at(true, at(1100));
    idle.set_idle_at(false, at(1400));
    assert!(runtimes_computable(&s, at(2000), &idle, 60));
    // 1000 s played; 300 s idle, of which 60 s are forgiven.
    assert_eq!(runtimes_for(&s, at(2000), &idle, 60), (1000, 760));
}

#[test]
fn idle_under_grace_is_fully_forgiven() {
    let mut idle = IdleTracker::new();
    let s = session(1, 0);
    idle.set_idle_at(true, at(10));
    idle.set_idle_at(false, at(40));
    assert_eq!(runtimes_for(&s, at(600), &idle, 60), (600, 600));
}

#[test]
fn pre_session_idle_does_not_count_against_session() {
    let mut idle = IdleTracker::new();
    idle.set_idle_at(true, at(0));
    idle.set_idle_at(false, at(500));
    let (count, open_secs) = idle.session_start_baseline_at(at(600));
    let s = OpenSession {
        session_id: 1,
        application_id: 1,
        baseline_idle_intervals_count: count,
        baseline_open_idle_seconds: open_secs,
        started: at(600),
    };
    assert_eq!(runtimes_for(&s, at(900), &idle, 60), (300, 300));
}

#[test]
fn interactive_runtime_never_exceeds_full_runtime() {
    let idle = IdleTracker::new();
    let s = session(1, 100);
    assert_eq!(runtimes_for(&s, at(50), &idle, 60), (0, 0));
    assert_eq!(grace_as_i64(u64::MAX), i64::MAX);
    assert_eq!(grace_as_i64(30), 30);
}

#[test]
fn game_keys_compare_by_launcher_and_id() {
    assert!(GameKey::steam("440").same_as(&GameKey::new(LauncherType::Steam, "440".to_string())));
    assert!(!GameKey::steam("440").same_as(&GameKey::native("440")));
    assert!(!GameKey::heroic("a").same_as(&GameKey::heroic("b")));
}

// ---- clock ----

#[test]
fn seconds_between_rounds_down_and_never_goes_negative() {
    let a = ClockReading { secs: 10, nanos: 900_000_000 };
    let b = ClockReading { secs: 12, nanos: 100_000_000 };
    assert_eq!(seconds_between(a, b), 1);
    assert_eq!(seconds_between(b, a), 0);
    assert_eq!(seconds_between(at(0), at(u64::MAX)), i64::MAX);
}

#[test]
fn saturating_arithmetic_clamps_at_the_bounds() {
    assert_eq!(saturating_add_i64(i64::MAX, 1), i64::MAX);
    assert_eq!(saturating_add_i64(i64::MIN, -1), i64::MIN);
    assert_eq!(saturating_sub_i64(i64::MIN, 1), i64::MIN);
    assert_eq!(saturating_sub_i64(5, 7), -2);
    assert_eq!(reading_from_timespec(-4, 7), ClockReading { secs: 0, nanos: 7 });
    assert_eq!(reading_from_timespec(4, -7), ClockReading { secs: 4, nanos: 0 });
}

#[test]
fn monotonic_clock_does_not_go_backwards() {
    let a = now(ClockKind::Monotonic);
    let b = now(ClockKind::Monotonic);
    assert!((b.secs, b.nanos) >= (a.secs, a.nanos));
}

// ---- config ----

#[test]
fn backup_settings_are_converted_and_clamped() {
    let b = BackupConfig::from_settings(24, 7);
    assert_eq!(b.interval_seconds, 86_400);
    assert_eq!(b.retention, 7);
    assert_eq!(saturating_mul(u64::MAX, 3600), u64::MAX);
    let c = BackupConfig { interval_seconds: 10, retention: 0 }.clamped();
    assert_eq!(c.interval_seconds, MIN_INTERVAL_SECONDS);
    assert_eq!(c.retention, 1);
}

#[test]
fn saved_backup_settings_are_floored() {
    let mut cfg = TrackerConfig::from_settings(1 << 30, 15, true, 60, 24, 7);
    assert_eq!(cfg.set_backup_interval_hours(0), 1);
    assert_eq!(cfg.backup.interval_seconds, 3600);
    assert_eq!(cfg.set_backup_retention_count(0), 1);
    assert_eq!(cfg.backup.retention, 1);
    assert_eq!(cfg.set_backup_retention_count(30), 30);
    assert_eq!(cfg.backup.retention, 30);
    assert_eq!(cfg.alt_tab_grace_seconds, 15);
    assert_eq!(cfg.gate.gpu_memory_threshold_bytes, 1 << 30);
}

// ---- api ----

#[test]
fn listing_sizes_are_clamped() {
    assert_eq!(session_limit(0), 1);
    assert_eq!(session_limit(50), 50);
    assert_eq!(session_limit(u32::MAX), MAX_SESSION_LIMIT);
    assert_eq!(playtime_days(0), 1);
    assert_eq!(playtime_days(30), 30);
    assert_eq!(playtime_days(100_000), MAX_PLAYTIME_DAYS);
}

// ---- paths ----

#[test]
fn path_prefixes_compare_whole_components() {
    assert!(starts_with_path("/home/u/Games/foo/game.exe", "/home/u/Games/foo"));
    assert!(starts_with_path("/home/u/Games/foo/game.exe", "/home/u/Games/foo/"));
    assert!(!starts_with_path("/home/u/Games/foobar/game.exe", "/home/u/Games/foo"));
    assert!(paths_equal("/a//b/", "/a/b"));
    assert!(!paths_equal("/a/b", "a/b"));
}

#[test]
fn join_and_ancestors() {
    assert_eq!(join("/a/b", "c/d"), "/a/b/c/d");
    assert_eq!(join("/a/b", "/etc"), "/etc");
    assert_eq!(
        ancestor_directories("/a/b/c/file", 2),
        vec!["/a/b/c".to_string(), "/a/b".to_string()]
    );
    assert!(extension_is("/x/Game.EXE", "exe"));
    assert!(!extension_is("/x/game", "exe"));
}

// ---- vdf ----

#[test]
fn vdf_reads_top_level_keys_and_nested_values() {
    let content = "\"libraryfolders\"\n{\n\t\"0\"\n\t{\n\t\t\"path\"\t\t\"/home/u/.steam\"\n\t}\n\t\"1\"\n\t{\n\t\t\"path\"\t\t\"/mnt/games\"\n\t}\n}";
    assert_eq!(
        parse_all_values(content, "path"),
        vec!["/home/u/.steam".to_string(), "/mnt/games".to_string()]
    );
    assert_eq!(parse_top_level_string(content, "path"), None);
    let m = "\"AppState\"\n{\n\t\"appid\"\t\"440\"\n\t\"StateFlags\"\t\"x\"\n}";
    assert_eq!(parse_top_level_u64(m, "appid"), Some(440));
    assert_eq!(parse_top_level_u64(m, "StateFlags"), None);
}

// ---- kwin ----

#[test]
fn activations_parse_pid_and_fullscreen_flag() {
    let a = parse_activation("1234", "true", "steam_app_440".into(), "TF2".into()).expect("parsed");
    assert_eq!(a.pid, 1234);
    assert!(a.is_fullscreen);
    assert!(parse_activation("1", "1", String::new(), String::new()).unwrap().is_fullscreen);
    assert!(!parse_activation("1", "false", String::new(), String::new()).unwrap().is_fullscreen);
    assert!(parse_activation("x1", "true", String::new(), String::new()).is_none());
    assert_eq!(pidfd_target(0), Err(PidfdTargetError::Zero));
    assert_eq!(pidfd_target(u32::MAX), Err(PidfdTargetError::TooLarge));
    assert_eq!(pidfd_target(42), Ok(42));
    assert!(is_own_window(7, 7));
    assert!(!is_own_window(7, 8));
}
