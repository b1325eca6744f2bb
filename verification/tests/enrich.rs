use ludex::enrich::cascade::{build_patch, cascade_order};
use ludex::enrich::context::{candidate_locations, data_home, detect_desktop_dirs};
use ludex::enrich::desktop::{
    desktop_exec_program, desktop_file_patch, desktop_lookup, desktop_name_patch,
    flatpak_desktop_file_name, is_desktop_file, DesktopLookup,
};
use ludex::enrich::gog::{
    gog_info_step, gog_search_dirs, is_gog_info_file, value_to_version_string, GogInfo, GogStep,
    VersionValue,
};
use ludex::enrich::heroic::{
    find_by_app_name, find_by_install_path, heroic_patch, installed_games, library_cache_paths,
    real_executable_path, GameEntry, HeroicGame, InstallInfo,
};
use ludex::enrich::identity::{is_empty, merge_into, DetectedVia, Icons, IdentityUpdate};
use ludex::enrich::lutris::{best_match, curated_battlenet_game, lutris_patch, resolve_identity, LutrisGame};
use ludex::enrich::pe::{
    identity_from_strings, is_exe_path, non_empty, pe_patch, pick_language, pick_language_index,
    too_large, version_resource_safe,
    MAX_PE_READ_BYTES,
};
use ludex::enrich::steam::{steam_manifest_path, steam_patch};
use ludex::key::LauncherType;
use ludex::vdf::parse_top_level_string;

// ---- merge ----

#[test]
fn empty_default_is_empty() {
    assert!(is_empty(&IdentityUpdate::default()));
}

#[test]
fn any_field_makes_non_empty() {
    let u = IdentityUpdate {
        product_name: Some("x".into()),
        ..Default::default()
    };
    assert!(!is_empty(&u));
}

#[test]
fn merge_overrides_some_preserves_none() {
    let mut acc = IdentityUpdate {
        product_name: Some("old".into()),
        publisher: Some("old pub".into()),
        ..Default::default()
    };
    merge_into(
        &mut acc,
        DetectedVia::Steam,
        Some(IdentityUpdate {
            product_name: Some("new".into()),
            ..Default::default()
        }),
    );
    assert_eq!(acc.product_name.as_deref(), Some("new"));
    assert_eq!(acc.publisher.as_deref(), Some("old pub"));
}

#[test]
fn merge_none_is_noop() {
    let original = IdentityUpdate {
        product_name: Some("keep".into()),
        ..Default::default()
    };
    let mut acc = original.clone();
    merge_into(&mut acc, DetectedVia::Steam, None);
    assert_eq!(acc.product_name, original.product_name);
}

#[test]
fn icon_sizes_merge_independently() {
    let mut acc = IdentityUpdate {
        icons: Icons {
            icon_16: Some(b"small".to_vec()),
            ..Default::default()
        },
        ..Default::default()
    };
    merge_into(
        &mut acc,
        DetectedVia::Steam,
        Some(IdentityUpdate {
            icons: Icons {
                icon_32: Some(b"medium".to_vec()),
                ..Default::default()
            },
            ..Default::default()
        }),
    );
    assert_eq!(acc.icons.icon_16.as_deref(), Some(b"small".as_ref()));
    assert_eq!(acc.icons.icon_32.as_deref(), Some(b"medium".as_ref()));
}

#[test]
fn the_source_that_supplies_the_name_is_recorded() {
    let mut acc = IdentityUpdate::default();
    merge_into(
        &mut acc,
        DetectedVia::Desktop,
        Some(IdentityUpdate {
            product_name: Some("From desktop".into()),
            ..Default::default()
        }),
    );
    assert_eq!(acc.detected_via, Some(DetectedVia::Desktop));
}

#[test]
fn a_source_contributing_no_name_claims_no_provenance() {
    let mut acc = IdentityUpdate::default();
    merge_into(
        &mut acc,
        DetectedVia::Pe,
        Some(IdentityUpdate {
            publisher: Some("Some Studio".into()),
            ..Default::default()
        }),
    );
    assert_eq!(acc.detected_via, None);
}

#[test]
fn provenance_follows_the_name_when_a_later_source_overwrites_it() {
    let mut acc = IdentityUpdate::default();
    merge_into(
        &mut acc,
        DetectedVia::Desktop,
        Some(IdentityUpdate {
            product_name: Some("Wrong name".into()),
            ..Default::default()
        }),
    );
    merge_into(
        &mut acc,
        DetectedVia::Steam,
        Some(IdentityUpdate {
            product_name: Some("Right name".into()),
            ..Default::default()
        }),
    );
    assert_eq!(acc.product_name.as_deref(), Some("Right name"));
    assert_eq!(acc.detected_via, Some(DetectedVia::Steam));
}

#[test]
fn provenance_survives_a_later_nameless_source() {
    let mut acc = IdentityUpdate::default();
    merge_into(
        &mut acc,
        DetectedVia::Lutris,
        Some(IdentityUpdate {
            product_name: Some("Named here".into()),
            ..Default::default()
        }),
    );
    merge_into(
        &mut acc,
        DetectedVia::Steam,
        Some(IdentityUpdate {
            publisher: Some("Later publisher".into()),
            ..Default::default()
        }),
    );
    assert_eq!(acc.detected_via, Some(DetectedVia::Lutris));
}

#[test]
fn merging_an_empty_patch_leaves_everything() {
    let before = IdentityUpdate {
        product_name: Some("Game".into()),
        version: Some("1.0".into()),
        group_id: Some(7),
        detected_via: Some(DetectedVia::Gog),
        ..Default::default()
    };
    let mut acc = before.clone();
    merge_into(&mut acc, DetectedVia::Steam, Some(IdentityUpdate::default()));
    assert_eq!(acc, before);
}

// ---- cascade ----

#[test]
fn cascade_runs_sources_lowest_priority_first() {
    assert_eq!(
        cascade_order(),
        vec![
            DetectedVia::Desktop,
            DetectedVia::Pe,
            DetectedVia::Gog,
            DetectedVia::Heroic,
            DetectedVia::Lutris,
            DetectedVia::Steam,
        ]
    );
}

#[test]
fn cascade_last_source_wins_per_field() {
    let patches = vec![
        (
            DetectedVia::Desktop,
            Some(IdentityUpdate {
                product_name: Some("desktop name".into()),
                publisher: Some("desktop pub".into()),
                ..Default::default()
            }),
        ),
        (DetectedVia::Pe, None),
        (
            DetectedVia::Steam,
            Some(IdentityUpdate {
                product_name: Some("Team Fortress 2".into()),
                ..Default::default()
            }),
        ),
    ];
    let r = build_patch(patches);
    assert_eq!(r.product_name.as_deref(), Some("Team Fortress 2"));
    assert_eq!(r.publisher.as_deref(), Some("desktop pub"));
    assert_eq!(r.detected_via, Some(DetectedVia::Steam));
    assert!(is_empty(&build_patch(Vec::new())));
}

// ---- heroic ----

fn entry(
    app_name: &str,
    title: &str,
    install_path: &str,
    executable: Option<&str>,
    developer: Option<&str>,
) -> HeroicGame {
    HeroicGame {
        app_name: app_name.to_owned(),
        title: title.to_owned(),
        developer: developer.map(str::to_owned),
        install_path: install_path.to_owned(),
        executable: executable.map(str::to_owned),
    }
}

#[test]
fn find_by_app_name_returns_exact_match() {
    let g = vec![
        entry("aaa", "Foo", "/g/foo", Some("Foo.exe"), None),
        entry("bbb", "Bar", "/g/bar", Some("Bar.exe"), None),
    ];
    let m = find_by_app_name(&g, "bbb").expect("should match");
    assert_eq!(m.title, "Bar");
}

#[test]
fn find_by_app_name_returns_none_when_unknown() {
    let g = vec![entry("aaa", "Foo", "/g/foo", None, None)];
    assert!(find_by_app_name(&g, "zzz").is_none());
}

#[test]
fn find_by_install_path_picks_longest_prefix() {
    let g = vec![
        entry("a", "Outer", "/home/u/Games/Heroic/outer", None, None),
        entry("b", "Inner", "/home/u/Games/Heroic/outer/inner", None, None),
    ];
    let m = find_by_install_path(&g, "/home/u/Games/Heroic/outer/inner/game.exe").expect("should match");
    assert_eq!(m.title, "Inner");
}

#[test]
fn find_by_install_path_does_not_match_byte_prefix_only() {
    let g = vec![entry("a", "Sibling", "/home/u/Games/Heroic/foo", None, None)];
    assert!(find_by_install_path(&g, "/home/u/Games/Heroic/foobar/game.exe").is_none());
}

#[test]
fn real_executable_path_joins_install_path_and_executable() {
    let g = entry(
        "a",
        "Doors - Paradox",
        "/home/u/Games/Heroic/Doors",
        Some("Doors Paradox.exe"),
        None,
    );
    assert_eq!(
        real_executable_path(&g).as_deref(),
        Some("/home/u/Games/Heroic/Doors/Doors Paradox.exe"),
    );
}

#[test]
fn real_executable_path_none_when_executable_missing() {
    let g = entry("a", "Foo", "/g/foo", None, None);
    assert!(real_executable_path(&g).is_none());
}

fn row(app: Option<&str>, title: Option<&str>, installed: bool, path: Option<&str>) -> GameEntry {
    GameEntry {
        app_name: app.map(str::to_owned),
        title: title.map(str::to_owned),
        developer: Some("Dev".to_owned()),
        is_installed: installed,
        install: Some(InstallInfo {
            install_path: path.map(str::to_owned),
            executable: Some("game.exe".to_owned()),
        }),
    }
}

#[test]
fn installed_games_keep_only_complete_installed_rows() {
    let rows = vec![
        row(Some("a"), Some("Installed"), true, Some("/g/a")),
        row(Some("b"), Some("Not installed"), false, Some("/g/b")),
        row(Some("c"), Some("No path"), true, None),
        row(None, Some("No app name"), true, Some("/g/d")),
    ];
    let games = installed_games(&rows);
    assert_eq!(games.len(), 1);
    assert_eq!(games[0].app_name, "a");
    assert_eq!(games[0].install_path, "/g/a");
    assert_eq!(games[0].developer.as_deref(), Some("Dev"));
}

#[test]
fn heroic_patch_matches_by_app_name_or_install_path() {
    let g = vec![entry("bbb", "Bar", "/g/bar", Some("Bar.exe"), Some("Bar Studio"))];
    let p = heroic_patch(&g, LauncherType::Heroic, "bbb", None).expect("heroic match");
    assert_eq!(p.product_name.as_deref(), Some("Bar"));
    assert_eq!(p.publisher.as_deref(), Some("Bar Studio"));
    assert_eq!(p.executable_path.as_deref(), Some("/g/bar/Bar.exe"));
    let n = heroic_patch(&g, LauncherType::Native, "x", Some("/g/bar/sub/run.exe")).expect("native");
    assert_eq!(n.product_name.as_deref(), Some("Bar"));
    assert!(heroic_patch(&g, LauncherType::Steam, "bbb", None).is_none());
    assert!(heroic_patch(&g, LauncherType::Native, "x", None).is_none());
}

#[test]
fn heroic_library_caches_live_under_store_cache() {
    assert_eq!(
        library_cache_paths("/home/u/.config/heroic"),
        vec![
            "/home/u/.config/heroic/store_cache/legendary_library.json".to_string(),
            "/home/u/.config/heroic/store_cache/gog_library.json".to_string(),
            "/home/u/.config/heroic/store_cache/nile_library.json".to_string(),
        ]
    );
}

// ---- lutris ----

fn games(rows: &[(&str, &str)]) -> Vec<LutrisGame> {
    rows.iter()
        .map(|(name, dir)| LutrisGame {
            name: (*name).to_owned(),
            directory: (*dir).to_owned(),
        })
        .collect()
}

#[test]
fn best_match_picks_longest_prefix() {
    let g = games(&[
        ("Battle.net", "/home/u/Games/battlenet"),
        ("Lone Wolf", "/home/u/Games/lone-wolf"),
    ]);
    let exe = "/home/u/Games/battlenet/drive_c/Program Files (x86)/Diablo IV/Diablo IV.exe";
    let m = best_match(&g, exe).expect("should match");
    assert_eq!(m.name, "Battle.net");
}

#[test]
fn best_match_returns_none_for_unrelated_path() {
    let g = games(&[("Battle.net", "/home/u/Games/battlenet")]);
    assert!(best_match(&g, "/home/u/Steam/steamapps/common/Game/game.exe").is_none());
}

#[test]
fn best_match_does_not_match_byte_prefix_only() {
    let g = games(&[("Sibling", "/home/u/Games/foo")]);
    assert!(best_match(&g, "/home/u/Games/foobar/game.exe").is_none());
}

#[test]
fn best_match_picks_longer_when_a_subdir_was_also_installed() {
    let g = games(&[
        ("Battle.net", "/home/u/Games/battlenet"),
        ("Some Standalone Game", "/home/u/Games/battlenet/standalone"),
    ]);
    let m = best_match(&g, "/home/u/Games/battlenet/standalone/Game.exe").expect("should match");
    assert_eq!(m.name, "Some Standalone Game");
}

#[test]
fn battlenet_curation_resolves_known_titles() {
    let (name, publisher) =
        resolve_identity("Battle.net", "/home/u/Games/battlenet/drive_c/.../Diablo IV/Diablo IV.exe");
    assert_eq!(name, "Diablo IV");
    assert_eq!(publisher.as_deref(), Some("Blizzard Entertainment"));
}

#[test]
fn battlenet_curation_falls_back_when_basename_unknown() {
    let (name, publisher) =
        resolve_identity("Battle.net", "/home/u/Games/battlenet/drive_c/.../Mystery/Mystery.exe");
    assert_eq!(name, "Battle.net");
    assert!(publisher.is_none());
}

#[test]
fn non_aggregator_lutris_name_is_used_verbatim() {
    let (name, publisher) = resolve_identity("Some Indie Game", "/home/u/Games/some-indie/game.exe");
    assert_eq!(name, "Some Indie Game");
    assert!(publisher.is_none());
}

#[test]
fn battlenet_curation_is_case_insensitive_on_basename() {
    let (name, _) = resolve_identity("Battle.net", "/home/u/Games/battlenet/drive_c/.../Wow/WOW.EXE");
    assert_eq!(name, "World of Warcraft");
}

#[test]
fn battlenet_match_is_case_insensitive_on_lutris_name() {
    let (name, _) = resolve_identity("battle.net", "/home/u/Games/battlenet/drive_c/.../Wow/Wow.exe");
    assert_eq!(name, "World of Warcraft");
}

#[test]
fn curated_titles_cover_the_blizzard_catalogue() {
    assert_eq!(curated_battlenet_game("SC2.exe").as_deref(), Some("StarCraft II"));
    assert_eq!(curated_battlenet_game("Hearthstone.exe").as_deref(), Some("Hearthstone"));
    assert_eq!(curated_battlenet_game("Diablo III64.exe").as_deref(), Some("Diablo III"));
    assert_eq!(curated_battlenet_game("notepad.exe"), None);
}

#[test]
fn lutris_patch_names_the_best_match() {
    let g = games(&[("Battle.net", "/home/u/Games/battlenet")]);
    let p = lutris_patch(&g, "/home/u/Games/battlenet/drive_c/Overwatch/Overwatch.exe").expect("match");
    assert_eq!(p.product_name.as_deref(), Some("Overwatch 2"));
    assert_eq!(p.publisher.as_deref(), Some("Blizzard Entertainment"));
    assert!(lutris_patch(&g, "/opt/other/game.exe").is_none());
}

// ---- pe ----

#[test]
fn non_empty_strips_whitespace() {
    assert_eq!(non_empty("hello"), Some("hello".into()));
    assert_eq!(non_empty("  padded  "), Some("padded".into()));
    assert_eq!(non_empty(""), None);
    assert_eq!(non_empty("   "), None);
}

#[test]
fn version_strings_fall_back_in_order() {
    let p = identity_from_strings(None, Some("Desc".into()), Some("Co".into()), None, Some("1.2".into()))
        .expect("patch");
    assert_eq!(p.product_name.as_deref(), Some("Desc"));
    assert_eq!(p.publisher.as_deref(), Some("Co"));
    assert_eq!(p.version.as_deref(), Some("1.2"));
    let q = identity_from_strings(Some("Name".into()), Some("Desc".into()), None, Some("3".into()), Some("1.2".into()))
        .expect("patch");
    assert_eq!(q.product_name.as_deref(), Some("Name"));
    assert_eq!(q.version.as_deref(), Some("3"));
    assert!(identity_from_strings(None, None, None, None, None).is_none());
}

#[test]
fn english_translation_is_preferred() {
    assert_eq!(pick_language(&[(0x0407, 1200), (0x0409, 1252)]), Some((0x0409, 1252)));
    assert_eq!(pick_language(&[(0x0407, 1200)]), Some((0x0407, 1200)));
    assert_eq!(pick_language(&[]), None);
}

#[test]
fn pe_enricher_only_reads_small_exe_files() {
    assert!(is_exe_path("/g/Game.EXE"));
    assert!(!is_exe_path("/g/game.sh"));
    assert!(!too_large(MAX_PE_READ_BYTES));
    assert!(too_large(MAX_PE_READ_BYTES + 1));
}

#[test]
fn version_parser_panic_shape_is_refused() {
    // A block of five words whose one-word key ends at the block's end.
    let bad: &[u8] = &[10, 0, 0, 0, 0, 0, 65, 0, 0, 0];
    assert!(!version_resource_safe(bad));
    // The same words big-endian.
    let bad_be: &[u8] = &[0, 10, 0, 0, 0, 0, 0, 65, 0, 0];
    assert!(!version_resource_safe(bad_be));
    // A two-word key padded to the block's end is fine.
    let good: &[u8] = &[12, 0, 0, 0, 0, 0, 65, 0, 66, 0, 0, 0];
    assert!(version_resource_safe(good));
    assert!(version_resource_safe(&[]));
    // Blocks start at even words: the shape at an odd word is never parsed.
    let odd: &[u8] = &[0, 0, 10, 0, 0, 0, 0, 0, 65, 0, 0, 0];
    assert!(version_resource_safe(odd));
    assert_eq!(pick_language_index(&[(0x0407, 1200), (0x0409, 1252)]), Some(1));
    assert_eq!(pick_language_index(&[(0x0407, 1200)]), Some(0));
    assert_eq!(pick_language_index(&[]), None);
}

#[test]
fn bogus_pe_bytes_give_no_patch() {
    assert!(pe_patch(b"not a PE image").is_none());
    assert!(pe_patch(b"").is_none());
}

// ---- gog ----

fn shape(v: serde_json::Value) -> VersionValue {
    match v {
        serde_json::Value::String(s) => VersionValue::Text(s),
        serde_json::Value::Number(n) => VersionValue::Number(n.to_string()),
        _ => VersionValue::Other,
    }
}

#[test]
fn version_coercion_handles_common_shapes() {
    assert_eq!(
        value_to_version_string(shape(serde_json::Value::from("1.2.3"))).as_deref(),
        Some("1.2.3")
    );
    assert_eq!(
        value_to_version_string(shape(serde_json::Value::from(42))).as_deref(),
        Some("42")
    );
    assert_eq!(value_to_version_string(shape(serde_json::Value::from(""))), None);
    assert_eq!(value_to_version_string(shape(serde_json::Value::Null)), None);
    assert_eq!(
        value_to_version_string(shape(serde_json::Value::from(vec![1, 2]))),
        None
    );
}

#[test]
fn gog_info_files_and_search_dirs() {
    assert!(is_gog_info_file("goggame-1207658924.info"));
    assert!(is_gog_info_file("goggame-1.INFO"));
    assert!(!is_gog_info_file("goggame-1.json"));
    assert!(!is_gog_info_file("game-1.info"));
    assert_eq!(
        gog_search_dirs("/g/a/b/game.exe"),
        vec!["/g/a/b".to_string(), "/g/a".to_string(), "/g".to_string()]
    );
    assert_eq!(gog_search_dirs("/game.exe"), vec!["/".to_string()]);
}

#[test]
fn gog_info_step_reads_name_and_version() {
    let found = gog_info_step(Some(GogInfo {
        name: Some("The Witcher".into()),
        version: Some(VersionValue::Number("42".into())),
    }));
    match found {
        GogStep::Found(u) => {
            assert_eq!(u.product_name.as_deref(), Some("The Witcher"));
            assert_eq!(u.version.as_deref(), Some("42"));
        }
        other => panic!("expected a patch, got {other:?}"),
    }
    assert_eq!(
        gog_info_step(Some(GogInfo { name: Some("  ".into()), version: None })),
        GogStep::Skip
    );
    assert_eq!(gog_info_step(Some(GogInfo { name: None, version: None })), GogStep::StopDirectory);
    assert_eq!(gog_info_step(None), GogStep::StopDirectory);
}

// ---- steam ----

const TF2_ACF: &str = "\"AppState\"
{
\t\"appid\"\t\t\"440\"
\t\"universe\"\t\t\"1\"
\t\"LauncherPath\"\t\t\"C:\\\\Program Files (x86)\\\\Steam\\\\steam.exe\"
\t\"name\"\t\t\"Team Fortress 2\"
\t\"StateFlags\"\t\t\"4\"
\t\"installdir\"\t\t\"Team Fortress 2\"
\t\"UserConfig\"
\t{
\t\t\"language\"\t\t\"english\"
\t\t\"name\"\t\t\"not the top level\"
\t}
}
";

#[test]
fn extracts_name_from_real_manifest() {
    assert_eq!(
        parse_top_level_string(TF2_ACF, "name").as_deref(),
        Some("Team Fortress 2")
    );
}

#[test]
fn steam_enricher_reads_the_manifest_of_the_appid() {
    assert_eq!(
        steam_manifest_path(LauncherType::Steam, "/home/u/.local/share/Steam", "440").as_deref(),
        Some("/home/u/.local/share/Steam/steamapps/appmanifest_440.acf")
    );
    assert!(steam_manifest_path(LauncherType::Native, "/s", "440").is_none());
    let p = steam_patch(TF2_ACF).expect("named");
    assert_eq!(p.product_name.as_deref(), Some("Team Fortress 2"));
    assert!(steam_patch("\"AppState\"\n{\n}").is_none());
}

// ---- desktop ----

const DESKTOP: &str = "[Desktop Entry]\nType=Application\nName=Foo Game\nExec=/usr/bin/foo --fullscreen %U\n";

#[test]
fn desktop_entry_gives_program_and_name() {
    assert_eq!(
        desktop_exec_program("/usr/share/applications/foo.desktop", DESKTOP).as_deref(),
        Some("/usr/bin/foo")
    );
    let p = desktop_file_patch("/usr/share/applications/foo.desktop", DESKTOP).expect("named");
    assert_eq!(p.product_name.as_deref(), Some("Foo Game"));
    assert!(desktop_name_patch(None).is_none());
    let domain = "[Desktop Entry]\nType=Application\nName=Written Name\nX-Ubuntu-Gettext-Domain=foo\nExec=/usr/bin/foo\n";
    let q = desktop_file_patch("/usr/share/applications/foo.desktop", domain).expect("named");
    assert_eq!(q.product_name.as_deref(), Some("Written Name"));
    let unnamed = "[Desktop Entry]\nType=Application\nExec=/usr/bin/foo\n";
    assert!(desktop_file_patch("/usr/share/applications/foo.desktop", unnamed).is_none());
    assert_eq!(
        desktop_name_patch(Some("X".into())).and_then(|u| u.product_name),
        Some("X".to_string())
    );
}

#[test]
fn flatpak_apps_are_found_by_their_desktop_file() {
    assert_eq!(flatpak_desktop_file_name("com.example.Game"), "com.example.Game.desktop");
    assert!(is_desktop_file("/a/b/game.desktop"));
    assert!(!is_desktop_file("/a/b/game.desktop.bak"));
    assert_eq!(desktop_lookup(LauncherType::Flatpak), DesktopLookup::ByAppId);
}

// ---- context ----

#[test]
fn data_home_prefers_xdg_then_home() {
    assert_eq!(data_home(Some("/home/u"), Some("/xdg")), Some("/xdg".to_string()));
    assert_eq!(data_home(Some("/home/u"), None), Some("/home/u/.local/share".to_string()));
    assert_eq!(data_home(None, None), None);
}

#[test]
fn candidate_locations_follow_the_data_and_home_dirs() {
    let (steam, heroic, lutris) = candidate_locations(Some("/d"), Some("/h"));
    assert_eq!(steam.as_deref(), Some("/d/Steam"));
    assert_eq!(heroic.as_deref(), Some("/h/.config/heroic"));
    assert_eq!(lutris.as_deref(), Some("/d/lutris/pga.db"));
    assert_eq!(candidate_locations(None, None), (None, None, None));
}

#[test]
fn desktop_dirs_are_listed_once_in_priority_order() {
    let dirs = detect_desktop_dirs(Some("/h"), Some("/d"), Some("/usr/share:/d"));
    assert_eq!(
        dirs,
        vec![
            "/d/applications".to_string(),
            "/d/flatpak/exports/share/applications".to_string(),
            "/usr/share/applications".to_string(),
            "/var/lib/flatpak/exports/share/applications".to_string(),
            "/usr/local/share/applications".to_string(),
            "/h/Desktop".to_string(),
        ]
    );
}
