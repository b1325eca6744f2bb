use ludex::proc::environ::parse;
use ludex::sources::steam::{
    appid_from_manifest_name, cold_start_admit, collect_live_appids, display_name_from_manifest,
    drain_chunk, library_steamapps_dirs, manifest_says_running, parse_state_change,
    placeholder_name_of, plan_read, AppIdSet, SteamChange, SteamSource, APP_RUNNING_FLAG,
    MAX_DRAIN_BYTES,
};
use ludex::vdf::parse_top_level_u64;

const TF2_MANIFEST: &str = "\
\"AppState\"
{
\t\"appid\"\t\t\"440\"
\t\"name\"\t\t\"Team Fortress 2\"
\t\"StateFlags\"\t\t\"68\"
}";

fn some_pair(appid: &str, running: bool) -> Option<(String, bool)> {
    Some((appid.to_string(), running))
}

#[test]
fn parses_state_change_running() {
    let line = "[2026-04-18 22:14:43] AppID 1621690 state changed : Fully Installed,App Running,\n";
    assert_eq!(parse_state_change(line), some_pair("1621690", true));
}

#[test]
fn parses_state_change_not_running() {
    let line = "[2026-04-18 22:14:43] AppID 1621690 state changed : Fully Installed,\n";
    assert_eq!(parse_state_change(line), some_pair("1621690", false));
}

#[test]
fn parses_state_change_with_many_flags() {
    let line = "[...] AppID 440 state changed : Fully Installed,Update Queued,App Running,\n";
    assert_eq!(parse_state_change(line), some_pair("440", true));
}

#[test]
fn ignores_non_state_change_lines() {
    assert_eq!(
        parse_state_change("[2026-04-17 21:33:27] Current download rate: 0.000 Mbps\n"),
        None
    );
    assert_eq!(
        parse_state_change("[2026-04-17 21:33:27] AppID 1621690 Shader update changed : None\n"),
        None
    );
}

#[test]
fn ignores_non_numeric_appid() {
    assert_eq!(
        parse_state_change("[x] AppID abc state changed : App Running,\n"),
        None
    );
}

#[test]
fn parses_manifest_with_running_flag() {
    let flags = parse_top_level_u64(TF2_MANIFEST, "StateFlags").unwrap();
    assert!(flags & APP_RUNNING_FLAG != 0);
}

#[test]
fn state_change_flag_must_match_whole_entry() {
    // "App Running Soon" is not the "App Running" flag; entries are trimmed.
    assert_eq!(
        parse_state_change("[t] AppID 7 state changed : App Running Soon,\n"),
        some_pair("7", false)
    );
    assert_eq!(
        parse_state_change("[t] AppID 7 state changed :  App Running ,\n"),
        some_pair("7", true)
    );
    assert_eq!(parse_state_change("[t] AppID  state changed : App Running,\n"), None);
}

#[test]
fn manifest_running_bit_and_name() {
    assert!(manifest_says_running(TF2_MANIFEST));
    let idle = TF2_MANIFEST.replace("\"68\"", "\"4\"");
    assert!(!manifest_says_running(&idle));
    assert!(!manifest_says_running("\"AppState\"\n{\n}"));
    assert_eq!(display_name_from_manifest(TF2_MANIFEST, "440"), "Team Fortress 2");
    assert_eq!(
        display_name_from_manifest("\"AppState\"\n{\n\t\"appid\"\t\"12\"\n}", "12"),
        "AppID 12"
    );
    assert_eq!(placeholder_name_of("570"), "AppID 570");
}

#[test]
fn manifest_file_names_give_appids() {
    assert_eq!(appid_from_manifest_name("appmanifest_440.acf"), Some("440".to_string()));
    assert_eq!(appid_from_manifest_name("appmanifest_.acf"), None);
    assert_eq!(appid_from_manifest_name("appmanifest_44a.acf"), None);
    assert_eq!(appid_from_manifest_name("libraryfolders.vdf"), None);
    assert_eq!(appid_from_manifest_name("appmanifest_440.acf.bak"), None);
}

#[test]
fn library_dirs_start_with_primary_and_skip_duplicates() {
    let libs = vec!["/home/u/.steam".to_string(), "/mnt/games".to_string()];
    let dirs = library_steamapps_dirs("/home/u/.steam/steamapps", &libs);
    assert_eq!(
        dirs,
        vec!["/home/u/.steam/steamapps".to_string(), "/mnt/games/steamapps".to_string()]
    );
    let none: Vec<String> = Vec::new();
    assert_eq!(library_steamapps_dirs("/s/steamapps", &none), vec!["/s/steamapps".to_string()]);
}

#[test]
fn source_paths_hang_off_the_steam_dir() {
    let s = SteamSource::new("/home/u/.steam/steam".to_string());
    assert_eq!(s.steam_dir(), "/home/u/.steam/steam");
    assert_eq!(s.content_log_path(), "/home/u/.steam/steam/logs/content_log.txt");
    assert_eq!(s.steamapps_dir(), "/home/u/.steam/steam/steamapps");
}

#[test]
fn cold_start_skips_running_bit_without_live_process() {
    let mut running = AppIdSet::new();
    let live = AppIdSet::new();
    assert_eq!(cold_start_admit("440", TF2_MANIFEST, Some(&live), &mut running), None);
    assert!(!running.contains("440"));
}

#[test]
fn cold_start_trusts_bit_when_liveness_unknown() {
    let mut running = AppIdSet::new();
    assert_eq!(
        cold_start_admit("440", TF2_MANIFEST, None, &mut running),
        Some("Team Fortress 2".to_string())
    );
    assert!(running.contains("440"));
    // A second admission of the same appid is refused.
    assert_eq!(cold_start_admit("440", TF2_MANIFEST, None, &mut running), None);
}

#[test]
fn cold_start_admits_live_running_game() {
    let env = parse(b"SteamAppId=440\0STEAM_COMPAT_APP_ID=0\0");
    let mut live = AppIdSet::new();
    collect_live_appids(&env, &mut live);
    assert!(live.contains("440"));
    assert!(!live.contains("0"));
    let mut running = AppIdSet::new();
    assert_eq!(
        cold_start_admit("440", TF2_MANIFEST, Some(&live), &mut running),
        Some("Team Fortress 2".to_string())
    );
}

#[test]
fn plan_read_restarts_after_rotation_and_caps_the_chunk() {
    assert_eq!(plan_read(100, 40), (40, 60));
    assert_eq!(plan_read(30, 40), (0, 30));
    assert_eq!(plan_read(MAX_DRAIN_BYTES * 3, 0), (0, MAX_DRAIN_BYTES));
    assert_eq!(plan_read(10, 10), (10, 0));
}

#[test]
fn drain_chunk_leaves_unterminated_tail_for_next_pass() {
    let mut running = AppIdSet::new();
    let first: &[u8] = b"[t] AppID 440 state changed : App Running,\n[t] AppID 730 state chang";
    let (used, changes) = drain_chunk(first, &mut running);
    assert_eq!(used, 43);
    assert_eq!(changes, vec![SteamChange::Started { appid: "440".to_string() }]);
    assert!(running.contains("440"));
    assert!(!running.contains("730"));

    let mut rest: Vec<u8> = first[used..].to_vec();
    rest.extend_from_slice(b"ed : Fully Installed,App Running,\n");
    rest.extend_from_slice(b"[t] AppID 440 state changed : Fully Installed,\n");
    let (used2, changes2) = drain_chunk(&rest, &mut running);
    assert_eq!(used2, rest.len());
    assert_eq!(
        changes2,
        vec![
            SteamChange::Started { appid: "730".to_string() },
            SteamChange::Stopped { appid: "440".to_string() },
        ]
    );
    assert!(running.contains("730"));
    assert!(!running.contains("440"));
}

#[test]
fn drain_chunk_ignores_repeats_and_unrelated_lines() {
    let mut running = AppIdSet::new();
    let buf: &[u8] = b"[t] AppID 9 state changed : App Running,\n\
[t] AppID 9 state changed : App Running,\n\
[t] Current download rate: 0.000 Mbps\n\
[t] AppID 5 state changed : Fully Installed,\n";
    let (used, changes) = drain_chunk(buf, &mut running);
    assert_eq!(used, buf.len());
    assert_eq!(changes, vec![SteamChange::Started { appid: "9".to_string() }]);
    assert!(running.contains("9"));
    assert!(!running.contains("5"));
}

#[test]
fn drain_chunk_without_newline_consumes_nothing() {
    let mut running = AppIdSet::new();
    let (used, changes) = drain_chunk(b"[t] AppID 9 state changed : App Running,", &mut running);
    assert_eq!(used, 0);
    assert!(changes.is_empty());
    assert!(!running.contains("9"));
}
