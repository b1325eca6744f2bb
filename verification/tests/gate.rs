use ludex::gate::{
    decide_from_inputs, default_blocklist, default_foreground_source_launcher_env_vars,
    default_launcher_env_vars, has_launcher_attribution, resolve_attribution_environ,
    AcceptedProcess, GateConfig, GateDecision, LauncherAttribution, RejectionReason,
};
use ludex::proc::environ::Environ;
use ludex::proc::fdinfo::GpuSummary;
use ludex::proc::maps::GraphicsLibraries;

fn cfg() -> GateConfig {
    GateConfig {
        blocklist: vec!["kwin_wayland".to_owned(), "plasmashell".to_owned()],
        gpu_memory_threshold_bytes: 10 * 1024 * 1024,
        launcher_env_vars: default_launcher_env_vars(),
        foreground_source_launcher_env_vars: default_foreground_source_launcher_env_vars(),
    }
}

fn env_of(pairs: &[(&str, &str)]) -> Environ {
    let mut e = Environ::new();
    for (k, v) in pairs {
        e.insert((*k).to_owned(), (*v).to_owned());
    }
    e
}

fn gl_only() -> GraphicsLibraries {
    GraphicsLibraries {
        opengl: true,
        ..Default::default()
    }
}

fn no_libs() -> GraphicsLibraries {
    GraphicsLibraries::default()
}

#[test]
fn has_launcher_attribution_detects_steam_and_foreground_vars() {
    let c = cfg();
    assert!(has_launcher_attribution(&env_of(&[("SteamAppId", "1318690")]), &c));
    assert!(has_launcher_attribution(&env_of(&[("STEAM_COMPAT_APP_ID", "1318690")]), &c));
    assert!(has_launcher_attribution(&env_of(&[("HEROIC_APP_NAME", "x")]), &c));
    assert!(has_launcher_attribution(&env_of(&[("LUTRIS_GAME_UUID", "u")]), &c));
    assert!(!has_launcher_attribution(&env_of(&[("PATH", "/usr/bin")]), &c));
    assert!(!has_launcher_attribution(&Environ::new(), &c));
}

#[test]
fn resolve_falls_back_to_ancestor_that_carries_the_appid() {
    let own = Environ::new();
    let ancestors = vec![
        env_of(&[("PWD", "/game")]),
        env_of(&[("SteamAppId", "1318690"), ("STEAM_COMPAT_APP_ID", "1318690")]),
    ];
    let resolved = resolve_attribution_environ(own, ancestors, &cfg());
    assert_eq!(resolved.get("SteamAppId").map(String::as_str), Some("1318690"));
}

#[test]
fn resolve_prefers_own_environ_when_it_has_attribution() {
    let own = env_of(&[("SteamAppId", "440")]);
    let ancestors = vec![env_of(&[("SteamAppId", "999")])];
    let resolved = resolve_attribution_environ(own, ancestors, &cfg());
    assert_eq!(resolved.get("SteamAppId").map(String::as_str), Some("440"));
}

#[test]
fn resolve_returns_own_when_no_ancestor_has_attribution() {
    let own = env_of(&[("HOME", "/home/x")]);
    let ancestors = vec![env_of(&[("PATH", "/usr/bin")]), Environ::new()];
    let resolved = resolve_attribution_environ(own.clone(), ancestors, &cfg());
    assert_eq!(resolved, own);
}

#[test]
fn shapezio_window_rejected_via_ancestor_appid() {
    let c = cfg();
    let exe = "/home/u/.local/share/Steam/steamapps/common/shapez.io/shapezio";
    let resolved = resolve_attribution_environ(
        Environ::new(),
        vec![env_of(&[("SteamAppId", "1318690"), ("STEAM_COMPAT_APP_ID", "1318690")])],
        &c,
    );
    let d = decide_from_inputs(Some(exe), Some(&resolved), Some(gl_only()), None, true, false, &c);
    assert_eq!(d, GateDecision::Reject(RejectionReason::AttributedToLauncher));
    let bare = Environ::new();
    let d_bug = decide_from_inputs(Some(exe), Some(&bare), Some(gl_only()), None, true, false, &c);
    assert!(matches!(d_bug, GateDecision::Accept(_)));
}

#[test]
fn missing_exe_rejects() {
    let d = decide_from_inputs(None, None, Some(gl_only()), None, true, false, &cfg());
    assert_eq!(d, GateDecision::Reject(RejectionReason::ExeUnreadable));
}

#[test]
fn blocklisted_exe_rejects_even_if_fullscreen_and_gl() {
    let d = decide_from_inputs(Some("/usr/bin/kwin_wayland"), None, Some(gl_only()), None, true, false, &cfg());
    assert_eq!(d, GateDecision::Reject(RejectionReason::Blocklisted));
}

#[test]
fn missing_maps_rejects() {
    let d = decide_from_inputs(Some("/opt/games/foo/foo"), None, None, None, true, false, &cfg());
    assert_eq!(d, GateDecision::Reject(RejectionReason::MapsUnreadable));
}

#[test]
fn no_graphics_library_rejects() {
    let d = decide_from_inputs(Some("/opt/games/foo/foo"), None, Some(no_libs()), None, true, false, &cfg());
    assert_eq!(d, GateDecision::Reject(RejectionReason::NoGraphicsLibrary));
}

#[test]
fn fullscreen_with_graphics_library_accepts() {
    let exe = "/opt/games/foo/foo";
    let d = decide_from_inputs(Some(exe), None, Some(gl_only()), None, true, false, &cfg());
    match d {
        GateDecision::Accept(a) => {
            assert_eq!(a.executable_path, exe);
            assert!(a.graphics_libraries.opengl);
        }
        GateDecision::Reject(_) => panic!("expected accept"),
    }
}

#[test]
fn non_fullscreen_without_gpu_rejects() {
    let d = decide_from_inputs(Some("/opt/games/foo/foo"), None, Some(gl_only()), None, false, false, &cfg());
    assert_eq!(d, GateDecision::Reject(RejectionReason::NotFullscreenAndLowGpu));
}

#[test]
fn non_fullscreen_below_threshold_rejects() {
    let gpu = GpuSummary {
        driver: Some("amdgpu".into()),
        memory_bytes: 5 * 1024 * 1024,
        engine_nanoseconds: 0,
    };
    let d = decide_from_inputs(Some("/opt/games/foo/foo"), None, Some(gl_only()), Some(&gpu), false, false, &cfg());
    assert_eq!(d, GateDecision::Reject(RejectionReason::NotFullscreenAndLowGpu));
}

#[test]
fn non_fullscreen_over_threshold_accepts() {
    let gpu = GpuSummary {
        driver: Some("amdgpu".into()),
        memory_bytes: 500 * 1024 * 1024,
        engine_nanoseconds: 123,
    };
    let d = decide_from_inputs(Some("/opt/games/foo/foo"), None, Some(gl_only()), Some(&gpu), false, false, &cfg());
    assert!(matches!(d, GateDecision::Accept(_)));
}

#[test]
fn steam_env_rejects_with_launcher_attribution() {
    let env = env_of(&[("SteamGameId", "440"), ("SteamAppId", "440")]);
    let d = decide_from_inputs(
        Some("/home/u/.steam/steamapps/common/foo/foo.exe"),
        Some(&env),
        Some(gl_only()),
        None,
        true,
        false,
        &cfg(),
    );
    assert_eq!(d, GateDecision::Reject(RejectionReason::AttributedToLauncher));
}

#[test]
fn proton_compat_env_rejects() {
    let env = env_of(&[("STEAM_COMPAT_APP_ID", "730")]);
    let d = decide_from_inputs(Some("/home/u/game.exe"), Some(&env), Some(gl_only()), None, true, false, &cfg());
    assert_eq!(d, GateDecision::Reject(RejectionReason::AttributedToLauncher));
}

#[test]
fn lutris_uuid_env_does_not_reject() {
    let env = env_of(&[("LUTRIS_GAME_UUID", "abc-123")]);
    let d = decide_from_inputs(Some("/home/u/games/foo"), Some(&env), Some(gl_only()), None, true, false, &cfg());
    assert!(matches!(d, GateDecision::Accept(_)), "Lutris-attributed games must pass the game check; got {d:?}");
}

#[test]
fn lutris_uuid_env_produces_lutris_attribution() {
    let env = env_of(&[("LUTRIS_GAME_UUID", "abc-123")]);
    let d = decide_from_inputs(
        Some("/home/u/.local/share/lutris/runners/wine/lutris-fshack/bin/wine64-preloader"),
        Some(&env),
        Some(gl_only()),
        None,
        true,
        false,
        &cfg(),
    );
    match d {
        GateDecision::Accept(accepted) => {
            assert_eq!(
                accepted.attribution,
                Some(LauncherAttribution::Lutris { uuid: "abc-123".to_owned() })
            );
        }
        GateDecision::Reject(_) => panic!("expected accept, got {d:?}"),
    }
}

#[test]
fn heroic_app_name_env_does_not_reject() {
    let env = env_of(&[("HEROIC_APP_NAME", "com.example.foo")]);
    let d = decide_from_inputs(Some("/home/u/Games/Heroic/Foo/foo.exe"), Some(&env), Some(gl_only()), None, true, false, &cfg());
    assert!(matches!(d, GateDecision::Accept(_)), "Heroic-attributed games must pass the game check; got {d:?}");
}

#[test]
fn heroic_via_proton_overrides_steam_attribution() {
    let env = env_of(&[("HEROIC_APP_NAME", "com.epicgames.lego.bj"), ("STEAM_COMPAT_APP_ID", "0")]);
    let d = decide_from_inputs(Some("/home/u/Games/Heroic/LBJ/Builder.exe"), Some(&env), Some(gl_only()), None, true, false, &cfg());
    assert!(matches!(d, GateDecision::Accept(_)), "Heroic-via-Proton games must pass the game check; got {d:?}");
}

#[test]
fn lutris_via_proton_overrides_steam_attribution() {
    let env = env_of(&[("LUTRIS_GAME_UUID", "abc-123"), ("STEAM_COMPAT_APP_ID", "0")]);
    let d = decide_from_inputs(Some("/home/u/Games/lutris-proton/game.exe"), Some(&env), Some(gl_only()), None, true, false, &cfg());
    assert!(matches!(d, GateDecision::Accept(_)), "Lutris-via-Proton games must pass the game check; got {d:?}");
}

#[test]
fn generic_steam_runtime_env_does_not_reject() {
    let env = env_of(&[
        ("STEAM_RUNTIME", "/home/u/.local/share/Steam/ubuntu12_32/steam-runtime"),
        ("STEAM_BASE_FOLDER", "/home/u/.local/share/Steam"),
    ]);
    let d = decide_from_inputs(Some("/opt/games/foo/foo"), Some(&env), Some(gl_only()), None, true, false, &cfg());
    assert!(matches!(d, GateDecision::Accept(_)), "got {d:?}");
}

#[test]
fn gamescope_ancestry_accepts_without_fullscreen_or_gpu() {
    let d = decide_from_inputs(Some("/opt/games/foo/foo"), None, Some(gl_only()), None, false, true, &cfg());
    assert!(matches!(d, GateDecision::Accept(_)), "got {d:?}");
}

#[test]
fn gamescope_ancestry_accepts_even_without_graphics_library() {
    let d = decide_from_inputs(Some("/opt/games/foo/foo"), None, Some(no_libs()), None, false, true, &cfg());
    assert!(matches!(d, GateDecision::Accept(_)), "got {d:?}");
}

#[test]
fn gamescope_ancestry_does_not_override_blocklist() {
    let d = decide_from_inputs(Some("/usr/bin/kwin_wayland"), None, Some(gl_only()), None, true, true, &cfg());
    assert_eq!(d, GateDecision::Reject(RejectionReason::Blocklisted));
}

#[test]
fn gamescope_ancestry_does_not_override_launcher_attribution() {
    let env = env_of(&[("SteamGameId", "440"), ("SteamAppId", "440")]);
    let d = decide_from_inputs(
        Some("/home/u/.steam/steamapps/common/foo/foo"),
        Some(&env),
        Some(gl_only()),
        None,
        true,
        true,
        &cfg(),
    );
    assert_eq!(d, GateDecision::Reject(RejectionReason::AttributedToLauncher));
}

#[test]
fn steam_shortcut_with_zero_appid_is_accepted() {
    let env = env_of(&[
        ("SteamGameId", "13275623096702517248"),
        ("SteamAppId", "0"),
        ("STEAM_COMPAT_APP_ID", "0"),
    ]);
    let d = decide_from_inputs(Some("/home/u/Games/foo/foo"), Some(&env), Some(gl_only()), None, true, false, &cfg());
    assert!(matches!(d, GateDecision::Accept(_)), "Steam shortcut with zero appid must pass the game check; got {d:?}");
}

#[test]
fn default_launcher_env_vars_covers_expected_names() {
    let vars = default_launcher_env_vars();
    for expected in ["SteamAppId", "STEAM_COMPAT_APP_ID"] {
        assert!(vars.iter().any(|v| v == expected), "missing {expected}");
    }
    for excluded in ["SteamGameId", "LUTRIS_GAME_UUID", "HEROIC_APP_NAME"] {
        assert!(!vars.iter().any(|v| v == excluded), "{excluded} must not cause a rejection");
    }
}

#[test]
fn default_blocklist_includes_kwin_and_plasmashell() {
    let bl = default_blocklist();
    for expected in ["kwin_wayland", "kwin_x11", "plasmashell", "ludex-daemon"] {
        assert!(bl.iter().any(|v| v == expected), "blocklist missing {expected}");
    }
}

#[test]
fn accepted_process_carries_path_libraries_and_heroic_attribution() {
    let env = env_of(&[("HEROIC_APP_NAME", "  com.example.foo  ")]);
    let d = decide_from_inputs(Some("/g/foo.exe"), Some(&env), Some(gl_only()), None, true, false, &cfg());
    assert_eq!(
        d,
        GateDecision::Accept(AcceptedProcess {
            executable_path: "/g/foo.exe".to_owned(),
            graphics_libraries: gl_only(),
            attribution: Some(LauncherAttribution::Heroic { app_name: "com.example.foo".to_owned() }),
        })
    );
}

#[test]
fn blank_launcher_ids_give_no_attribution() {
    let env = env_of(&[("HEROIC_APP_NAME", "   "), ("LUTRIS_GAME_UUID", "")]);
    let d = decide_from_inputs(Some("/g/foo"), Some(&env), Some(gl_only()), None, true, false, &cfg());
    match d {
        GateDecision::Accept(a) => assert_eq!(a.attribution, None),
        GateDecision::Reject(r) => panic!("expected accept, got {r:?}"),
    }
}

#[test]
fn default_gate_config_has_fifty_mib_threshold() {
    let c = GateConfig::default();
    assert_eq!(c.gpu_memory_threshold_bytes, 50 * 1024 * 1024);
    assert_eq!(c.blocklist.len(), 20);
}
