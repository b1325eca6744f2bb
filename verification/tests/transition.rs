use ludex::gate::{AcceptedProcess, GateDecision, LauncherAttribution, RejectionReason};
use ludex::key::{GameKey, LauncherType};
use ludex::proc::maps::GraphicsLibraries;
use ludex::sources::kwin::transition::{
    display_name_from, native_key, next_action, on_grace_timeout, on_tracked_exit,
    AcceptedForeground, FgState, ForegroundMeta, TimerOp, TransitionEvent,
};

fn accepted(path: &str) -> GateDecision {
    accepted_with(path, None)
}

fn accepted_with(path: &str, attribution: Option<LauncherAttribution>) -> GateDecision {
    GateDecision::Accept(AcceptedProcess {
        executable_path: path.to_owned(),
        graphics_libraries: GraphicsLibraries {
            vulkan: true,
            ..Default::default()
        },
        attribution,
    })
}

fn rejected() -> GateDecision {
    GateDecision::Reject(RejectionReason::NoGraphicsLibrary)
}

fn meta(pid: u32, class: &str, caption: &str) -> ForegroundMeta {
    ForegroundMeta {
        pid,
        resource_class: class.into(),
        caption: caption.into(),
    }
}

fn af(pid: u32, path: &str) -> AcceptedForeground {
    AcceptedForeground {
        pid,
        key: GameKey::native(path),
        executable_path: path.to_owned(),
    }
}

const PAUSE: bool = true;

#[test]
fn not_tracked_plus_reject_stays_not_tracked() {
    let o = next_action(FgState::NotTracked, &meta(100, "Firefox", ""), rejected(), PAUSE);
    assert_eq!(o.events, vec![]);
    assert_eq!(o.state, FgState::NotTracked);
    assert_eq!(o.timer, TimerOp::NoChange);
}

#[test]
fn not_tracked_plus_accept_emits_start() {
    let o = next_action(
        FgState::NotTracked,
        &meta(100, "Celeste", "Celeste"),
        accepted("/opt/celeste/Celeste"),
        PAUSE,
    );
    assert_eq!(o.events.len(), 1);
    assert!(matches!(
        &o.events[0],
        TransitionEvent::Start { display_name, .. } if display_name == "Celeste"
    ));
    assert_eq!(o.timer, TimerOp::NoChange);
    assert!(matches!(o.state, FgState::TrackedForeground(ref a) if a.pid == 100));
}

#[test]
fn heroic_attribution_keys_session_by_app_name() {
    let o = next_action(
        FgState::NotTracked,
        &meta(200, "steam_app_0", "Builder's Journey"),
        accepted_with(
            "/home/u/.config/heroic/tools/proton/Proton-GE/files/bin/wine64-preloader",
            Some(LauncherAttribution::Heroic {
                app_name: "deadbeef-epic-guid".to_owned(),
            }),
        ),
        PAUSE,
    );
    assert_eq!(o.events.len(), 1);
    let TransitionEvent::Start { key, .. } = &o.events[0] else {
        panic!("expected Start event, got {:?}", o.events[0]);
    };
    assert_eq!(*key, GameKey::heroic("deadbeef-epic-guid"));
    assert!(
        matches!(o.state, FgState::TrackedForeground(ref a) if a.key == GameKey::heroic("deadbeef-epic-guid"))
    );
}

#[test]
fn lutris_attribution_keys_session_by_uuid() {
    let o = next_action(
        FgState::NotTracked,
        &meta(200, "wine64-preloader", "Some Game"),
        accepted_with(
            "/home/u/.local/share/lutris/runners/wine/lutris-fshack/bin/wine64-preloader",
            Some(LauncherAttribution::Lutris {
                uuid: "abc-123".to_owned(),
            }),
        ),
        PAUSE,
    );
    assert_eq!(o.events.len(), 1);
    let TransitionEvent::Start { key, .. } = &o.events[0] else {
        panic!("expected Start event, got {:?}", o.events[0]);
    };
    assert_eq!(*key, GameKey::lutris("abc-123"));
    assert!(matches!(o.state, FgState::TrackedForeground(ref a) if a.key == GameKey::lutris("abc-123")));
}

#[test]
fn tracked_same_pid_is_noop() {
    let prev = af(100, "/opt/celeste/Celeste");
    let o = next_action(
        FgState::TrackedForeground(prev.clone()),
        &meta(100, "Celeste", "Chapter 1"),
        accepted("/opt/celeste/Celeste"),
        PAUSE,
    );
    assert_eq!(o.events, vec![]);
    assert_eq!(o.state, FgState::TrackedForeground(prev));
    assert_eq!(o.timer, TimerOp::NoChange);
}

#[test]
fn tracked_plus_reject_starts_grace_timer() {
    let prev = af(100, "/opt/celeste/Celeste");
    let o = next_action(FgState::TrackedForeground(prev.clone()), &meta(200, "Firefox", ""), rejected(), PAUSE);
    assert_eq!(o.events, vec![]);
    assert_eq!(o.state, FgState::TrackedBackgrounded(prev));
    assert_eq!(o.timer, TimerOp::Start);
}

#[test]
fn tracked_plus_reject_stays_tracked_when_pause_disabled() {
    let prev = af(100, "/opt/celeste/Celeste");
    let o = next_action(FgState::TrackedForeground(prev.clone()), &meta(200, "Firefox", ""), rejected(), false);
    assert_eq!(o.events, vec![]);
    assert_eq!(o.state, FgState::TrackedForeground(prev));
    assert_eq!(o.timer, TimerOp::NoChange);
}

#[test]
fn tracked_plus_accept_different_game_switches_without_grace() {
    let prev = af(100, "/opt/celeste/Celeste");
    let o = next_action(
        FgState::TrackedForeground(prev.clone()),
        &meta(200, "Factorio", "Factorio"),
        accepted("/opt/factorio/factorio"),
        PAUSE,
    );
    assert_eq!(o.events.len(), 2);
    assert!(matches!(
        &o.events[0],
        TransitionEvent::Stop { key } if key == &prev.key
    ));
    assert!(matches!(&o.events[1], TransitionEvent::Start { .. }));
    assert!(matches!(o.state, FgState::TrackedForeground(ref a) if a.pid == 200));
    assert_eq!(o.timer, TimerOp::NoChange);
}

#[test]
fn backgrounded_plus_same_pid_cancels_grace_and_resumes() {
    let prev = af(100, "/opt/celeste/Celeste");
    let o = next_action(
        FgState::TrackedBackgrounded(prev.clone()),
        &meta(100, "Celeste", "Chapter 1"),
        accepted("/opt/celeste/Celeste"),
        PAUSE,
    );
    assert_eq!(o.events, vec![]);
    assert_eq!(o.state, FgState::TrackedForeground(prev));
    assert_eq!(o.timer, TimerOp::Cancel);
}

#[test]
fn backgrounded_plus_another_non_game_does_not_reset_timer() {
    let prev = af(100, "/opt/celeste/Celeste");
    let o = next_action(FgState::TrackedBackgrounded(prev.clone()), &meta(300, "Telegram", ""), rejected(), PAUSE);
    assert_eq!(o.events, vec![]);
    assert_eq!(o.state, FgState::TrackedBackgrounded(prev));
    assert_eq!(o.timer, TimerOp::NoChange);
}

#[test]
fn backgrounded_plus_different_game_switches_and_cancels_grace() {
    let prev = af(100, "/opt/celeste/Celeste");
    let o = next_action(
        FgState::TrackedBackgrounded(prev.clone()),
        &meta(200, "Factorio", ""),
        accepted("/opt/factorio/factorio"),
        PAUSE,
    );
    assert_eq!(o.events.len(), 2);
    assert!(matches!(
        &o.events[0],
        TransitionEvent::Stop { key } if key == &prev.key
    ));
    assert!(matches!(&o.events[1], TransitionEvent::Start { .. }));
    assert_eq!(o.timer, TimerOp::Cancel);
}

#[test]
fn grace_timeout_from_backgrounded_emits_stop() {
    let prev = af(100, "/opt/celeste/Celeste");
    let o = on_grace_timeout(FgState::TrackedBackgrounded(prev.clone()), PAUSE);
    assert_eq!(o.events, vec![TransitionEvent::Stop { key: prev.key.clone() }]);
    assert_eq!(o.state, FgState::NotTracked);
}

#[test]
fn grace_timeout_with_pause_disabled_resumes_tracked() {
    let prev = af(100, "/opt/celeste/Celeste");
    let o = on_grace_timeout(FgState::TrackedBackgrounded(prev.clone()), false);
    assert_eq!(o.events, vec![]);
    assert_eq!(o.state, FgState::TrackedForeground(prev));
    assert_eq!(o.timer, TimerOp::NoChange);
}

#[test]
fn grace_timeout_from_other_states_is_noop() {
    let o = on_grace_timeout(FgState::NotTracked, PAUSE);
    assert_eq!(o.events, vec![]);
    assert_eq!(o.state, FgState::NotTracked);

    let af = af(100, "/opt/celeste/Celeste");
    let o = on_grace_timeout(FgState::TrackedForeground(af.clone()), PAUSE);
    assert_eq!(o.events, vec![]);
    assert_eq!(o.state, FgState::TrackedForeground(af));
}

#[test]
fn tracked_exit_emits_stop_and_cancels_timer() {
    let prev = af(100, "/opt/celeste/Celeste");
    let o = on_tracked_exit(FgState::TrackedForeground(prev.clone()), 100);
    assert_eq!(o.events, vec![TransitionEvent::Stop { key: prev.key.clone() }]);
    assert_eq!(o.state, FgState::NotTracked);
    assert_eq!(o.timer, TimerOp::Cancel);
}

#[test]
fn backgrounded_exit_emits_stop_immediately_no_grace_wait() {
    let prev = af(100, "/opt/celeste/Celeste");
    let o = on_tracked_exit(FgState::TrackedBackgrounded(prev.clone()), 100);
    assert_eq!(o.events, vec![TransitionEvent::Stop { key: prev.key.clone() }]);
    assert_eq!(o.state, FgState::NotTracked);
    assert_eq!(o.timer, TimerOp::Cancel);
}

#[test]
fn exit_for_unrelated_pid_is_noop() {
    let prev = af(100, "/opt/celeste/Celeste");
    let state = FgState::TrackedForeground(prev.clone());
    let o = on_tracked_exit(state.clone(), 999);
    assert_eq!(o.events, vec![]);
    assert_eq!(o.state, state);
}

#[test]
fn display_name_falls_back_to_caption_then_launcher_id() {
    let o = next_action(FgState::NotTracked, &meta(100, "", "Window Caption"), accepted("/opt/foo/foo"), PAUSE);
    assert!(matches!(
        &o.events[0],
        TransitionEvent::Start { display_name, .. } if display_name == "Window Caption"
    ));

    let o2 = next_action(FgState::NotTracked, &meta(100, "", ""), accepted("/opt/foo/foo_bin"), PAUSE);
    assert!(matches!(
        &o2.events[0],
        TransitionEvent::Start { display_name, .. } if display_name == "/opt/foo/foo_bin"
    ));
}

#[test]
fn blank_resource_class_falls_back_to_caption() {
    let key = GameKey::native("/opt/x");
    assert_eq!(display_name_from(&meta(1, "   ", "Cap"), &key), "Cap");
    assert_eq!(display_name_from(&meta(1, " Class ", "Cap"), &key), " Class ");
}

#[test]
fn native_key_uses_path_without_attribution() {
    let k = native_key(&"/opt/game/bin".to_owned(), &None);
    assert_eq!(k, GameKey::new(LauncherType::Native, "/opt/game/bin".to_owned()));
}

#[test]
fn start_event_carries_key_path_and_name() {
    let o = next_action(FgState::NotTracked, &meta(7, "Game", ""), accepted("/g/game"), PAUSE);
    assert_eq!(
        o.events,
        vec![TransitionEvent::Start {
            key: GameKey::native("/g/game"),
            executable_path: "/g/game".to_owned(),
            display_name: "Game".to_owned(),
        }]
    );
}
