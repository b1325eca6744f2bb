//! State transitions of the foreground source.
//!
//! The game check answers "is this process a game?" for one window; this
//! module answers "given what was tracked and what is foreground now,
//! which session events fire?".
//!
//! A grace window sits between "the tracked game lost the foreground"
//! and "emit Stop": if the tracked window returns within the grace
//! period no Stop is emitted and the session continues, so an alt-tab
//! to a browser and back does not split the session. Switching to a
//! different game bypasses the grace window.
//!
//! Everything here is free of I/O and clocks; the runner holds the
//! grace timer and performs the [`TimerOp`] each transition returns.

use vstd::prelude::*;
use crate::gate::{AttributionView, DecisionView, GateDecision, LauncherAttribution, RejectionReason};
use crate::key::{GameKey, KeyView, LauncherType};
use crate::text::{copy_string, is_blank, trim};

verus! {

/// The window the source decided to track, kept while it is foreground
/// and while it is backgrounded inside the grace window.
#[derive(Debug, PartialEq, Eq)]
pub struct AcceptedForeground {
    /// Process id of the accepted window.
    pub pid: u32,
    /// Key the `Start` was emitted under; `Stop` reuses it.
    pub key: GameKey,
    /// Executable path of the process.
    pub executable_path: String,
}

/// The mathematical content of an [`AcceptedForeground`].
pub struct ForegroundView {
    pub pid: u32,
    pub key: KeyView,
    pub executable_path: Seq<char>,
}

impl View for AcceptedForeground {
    type V = ForegroundView;

    open spec fn view(&self) -> ForegroundView {
        ForegroundView { pid: self.pid, key: self.key@, executable_path: self.executable_path@ }
    }
}

impl Clone for AcceptedForeground {
    fn clone(&self) -> (r: Self)
        ensures
            r@ == self@,
    {
        AcceptedForeground {
            pid: self.pid,
            key: self.key.clone(),
            executable_path: copy_string(&self.executable_path),
        }
    }
}

/// What the compositor reported alongside the activated window.
#[derive(Debug, Clone)]
pub struct ForegroundMeta {
    /// Process id of the window.
    pub pid: u32,
    /// The window's resource class, often the game's short name.
    pub resource_class: String,
    /// The window's caption.
    pub caption: String,
}

/// The mathematical content of a [`ForegroundMeta`].
pub struct MetaView {
    pub pid: u32,
    pub resource_class: Seq<char>,
    pub caption: Seq<char>,
}

impl View for ForegroundMeta {
    type V = MetaView;

    open spec fn view(&self) -> MetaView {
        MetaView {
            pid: self.pid,
            resource_class: self.resource_class@,
            caption: self.caption@,
        }
    }
}

/// What the source is tracking.
#[derive(Debug, PartialEq, Eq)]
pub enum FgState {
    /// No game is tracked.
    NotTracked,
    /// A game is tracked and foreground.
    TrackedForeground(AcceptedForeground),
    /// A tracked game lost the foreground and the grace timer runs.
    TrackedBackgrounded(AcceptedForeground),
}

/// The mathematical content of an [`FgState`].
pub enum StateView {
    NotTracked,
    TrackedForeground(ForegroundView),
    TrackedBackgrounded(ForegroundView),
}

impl View for FgState {
    type V = StateView;

    open spec fn view(&self) -> StateView {
        match self {
            FgState::NotTracked => StateView::NotTracked,
            FgState::TrackedForeground(af) => StateView::TrackedForeground(af@),
            FgState::TrackedBackgrounded(af) => StateView::TrackedBackgrounded(af@),
        }
    }
}

impl Clone for FgState {
    fn clone(&self) -> (r: Self)
        ensures
            r@ == self@,
    {
        match self {
            FgState::NotTracked => FgState::NotTracked,
            FgState::TrackedForeground(af) => FgState::TrackedForeground(af.clone()),
            FgState::TrackedBackgrounded(af) => FgState::TrackedBackgrounded(af.clone()),
        }
    }
}

/// The tracked window of `s`, foreground or not.
pub open spec fn current_of(s: StateView) -> Option<ForegroundView> {
    match s {
        StateView::NotTracked => None,
        StateView::TrackedForeground(af) => Some(af),
        StateView::TrackedBackgrounded(af) => Some(af),
    }
}

impl FgState {
    /// The tracked window, whether foreground or backgrounded.
    pub fn current(&self) -> (r: Option<&AcceptedForeground>)
        ensures
            match r {
                Some(af) => current_of(self@) == Some(af@),
                None => current_of(self@) is None,
            },
    {
        match self {
            FgState::NotTracked => None,
            FgState::TrackedForeground(af) => Some(af),
            FgState::TrackedBackgrounded(af) => Some(af),
        }
    }
}

/// What the runner does with its grace timer after an [`Outcome`].
#[derive(Debug, Clone, Copy, PartialEq, Eq, Structural)]
pub enum TimerOp {
    /// Leave the timer as it is.
    NoChange,
    /// Start a fresh grace timer.
    Start,
    /// Cancel any running timer.
    Cancel,
}

/// A session event for the runner to stamp and relay.
#[derive(Debug, PartialEq, Eq)]
pub enum TransitionEvent {
    /// A session begins.
    Start { key: GameKey, executable_path: String, display_name: String },
    /// The session of `key` ends.
    Stop { key: GameKey },
}

/// The mathematical content of a [`TransitionEvent`].
pub enum EventView {
    Start { key: KeyView, executable_path: Seq<char>, display_name: Seq<char> },
    Stop { key: KeyView },
}

impl View for TransitionEvent {
    type V = EventView;

    open spec fn view(&self) -> EventView {
        match self {
            TransitionEvent::Start { key, executable_path, display_name } => EventView::Start {
                key: key@,
                executable_path: executable_path@,
                display_name: display_name@,
            },
            TransitionEvent::Stop { key } => EventView::Stop { key: key@ },
        }
    }
}

/// Events to emit, the new state, and the timer action.
#[derive(Debug, PartialEq, Eq)]
pub struct Outcome {
    pub events: Vec<TransitionEvent>,
    pub state: FgState,
    pub timer: TimerOp,
}

/// The mathematical content of an [`Outcome`].
pub struct OutcomeView {
    pub events: Seq<EventView>,
    pub state: StateView,
    pub timer: TimerOp,
}

impl View for Outcome {
    type V = OutcomeView;

    open spec fn view(&self) -> OutcomeView {
        OutcomeView {
            events: self.events@.map_values(|e: TransitionEvent| e@),
            state: self.state@,
            timer: self.timer,
        }
    }
}

/// No events, state `s`, timer untouched.
pub open spec fn noop_of(s: StateView) -> OutcomeView {
    OutcomeView { events: seq![], state: s, timer: TimerOp::NoChange }
}

impl Outcome {
    /// No events, state `state`, timer untouched.
    pub fn noop(state: FgState) -> (r: Outcome)
        ensures
            r@ == noop_of(state@),
    {
        let r = Outcome { events: Vec::new(), state, timer: TimerOp::NoChange };
        assert(r@.events =~= Seq::<EventView>::empty());
        r
    }
}

// ---------------------------------------------------------------------
// The transitions, stated.
// ---------------------------------------------------------------------

/// The key sessions of an accepted process are stored under: the
/// foreground-source launcher's own id when the game check found one, else
/// the executable path.
pub open spec fn key_for(executable_path: Seq<char>, attribution: Option<AttributionView>) -> KeyView {
    match attribution {
        Some(AttributionView::Heroic(app_name)) => (LauncherType::Heroic, app_name),
        Some(AttributionView::Lutris(uuid)) => (LauncherType::Lutris, uuid),
        None => (LauncherType::Native, executable_path),
    }
}

/// Display name for a new session: the resource class, else the caption
/// (each only when not blank), else the key's launcher id.
pub open spec fn display_name_of(meta: MetaView, key: KeyView) -> Seq<char> {
    if trim(meta.resource_class).len() > 0 {
        meta.resource_class
    } else if trim(meta.caption).len() > 0 {
        meta.caption
    } else {
        key.1
    }
}

/// The outcome of a foreground activation of `meta`'s window, which the
/// game check judged `decision`, in state `state`.
pub open spec fn activation_outcome(
    state: StateView,
    meta: MetaView,
    decision: DecisionView,
    pause_when_backgrounded: bool,
) -> OutcomeView {
    if current_of(state) is Some && current_of(state)->0.pid == meta.pid {
        match state {
            StateView::TrackedBackgrounded(af) => OutcomeView {
                events: seq![],
                state: StateView::TrackedForeground(af),
                timer: TimerOp::Cancel,
            },
            _ => noop_of(state),
        }
    } else {
        match decision {
            DecisionView::Accept { executable_path, graphics_libraries, attribution } => {
                let key = key_for(executable_path, attribution);
                let new_af = ForegroundView { pid: meta.pid, key, executable_path };
                let start = EventView::Start {
                    key,
                    executable_path,
                    display_name: display_name_of(meta, key),
                };
                match state {
                    StateView::NotTracked => OutcomeView {
                        events: seq![start],
                        state: StateView::TrackedForeground(new_af),
                        timer: TimerOp::NoChange,
                    },
                    StateView::TrackedForeground(prev) => OutcomeView {
                        events: seq![EventView::Stop { key: prev.key }, start],
                        state: StateView::TrackedForeground(new_af),
                        timer: TimerOp::NoChange,
                    },
                    StateView::TrackedBackgrounded(prev) => OutcomeView {
                        events: seq![EventView::Stop { key: prev.key }, start],
                        state: StateView::TrackedForeground(new_af),
                        timer: TimerOp::Cancel,
                    },
                }
            },
            DecisionView::Reject(_) => match state {
                StateView::TrackedForeground(af) => if pause_when_backgrounded {
                    OutcomeView {
                        events: seq![],
                        state: StateView::TrackedBackgrounded(af),
                        timer: TimerOp::Start,
                    }
                } else {
                    noop_of(state)
                },
                _ => noop_of(state),
            },
        }
    }
}

/// The outcome of the grace timer firing in state `state`.
pub open spec fn grace_timeout_outcome(state: StateView, pause_when_backgrounded: bool) -> OutcomeView {
    match state {
        StateView::TrackedBackgrounded(af) => if pause_when_backgrounded {
            OutcomeView {
                events: seq![EventView::Stop { key: af.key }],
                state: StateView::NotTracked,
                timer: TimerOp::NoChange,
            }
        } else {
            OutcomeView { events: seq![], state: StateView::TrackedForeground(af), timer: TimerOp::NoChange }
        },
        _ => noop_of(state),
    }
}

/// The outcome of process `exited_pid` exiting in state `state`.
pub open spec fn exit_outcome(state: StateView, exited_pid: u32) -> OutcomeView {
    if current_of(state) is Some && current_of(state)->0.pid == exited_pid {
        OutcomeView {
            events: seq![EventView::Stop { key: current_of(state)->0.key }],
            state: StateView::NotTracked,
            timer: TimerOp::Cancel,
        }
    } else {
        noop_of(state)
    }
}

// ---------------------------------------------------------------------
// The transitions, computed.
// ---------------------------------------------------------------------

/// An outcome whose events are `events`, state `state`, timer `timer`.
fn outcome_of(events: Vec<TransitionEvent>, state: FgState, timer: TimerOp) -> (r: Outcome)
    ensures
        r@ == (OutcomeView {
            events: events@.map_values(|e: TransitionEvent| e@),
            state: state@,
            timer,
        }),
{
    Outcome { events, state, timer }
}

/// An outcome without events.
fn quiet(state: FgState, timer: TimerOp) -> (r: Outcome)
    ensures
        r@ == (OutcomeView { events: seq![], state: state@, timer }),
{
    let r = Outcome { events: Vec::new(), state, timer };
    assert(r@.events =~= Seq::<EventView>::empty());
    r
}

/// The key for an accepted process: the foreground-source launcher's
/// own id (Heroic's `HEROIC_APP_NAME`, Lutris's `LUTRIS_GAME_UUID`)
/// wins over the executable path, which Wine and Proton preloaders
/// share across games.
pub fn native_key(executable_path: &String, attribution: &Option<LauncherAttribution>) -> (r: GameKey)
    ensures
        r@ == key_for(
            executable_path@,
            match attribution {
                Some(a) => Some(a@),
                None => None,
            },
        ),
{
    match attribution {
        Some(LauncherAttribution::Heroic { app_name }) => GameKey::heroic(app_name.as_str()),
        Some(LauncherAttribution::Lutris { uuid }) => GameKey::lutris(uuid.as_str()),
        None => GameKey::native(executable_path.as_str()),
    }
}

/// Display name for a new session: resource class, else caption, else
/// the key's launcher id (the executable path for native keys).
pub fn display_name_from(meta: &ForegroundMeta, fallback_key: &GameKey) -> (r: String)
    ensures
        r@ == display_name_of(meta@, fallback_key@),
{
    if !is_blank(meta.resource_class.as_str()) {
        return copy_string(&meta.resource_class);
    }
    if !is_blank(meta.caption.as_str()) {
        return copy_string(&meta.caption);
    }
    copy_string(&fallback_key.launcher_id)
}

/// Handle a foreground-window activation: the events to emit, the new
/// state and the timer action.
///
/// With `pause_when_backgrounded` off, a rejected activation leaves a
/// tracked game tracked, so the grace timer never arms and sessions end
/// only when the process exits.
pub fn next_action(
    state: FgState,
    meta: &ForegroundMeta,
    decision: GateDecision,
    pause_when_backgrounded: bool,
) -> (r: Outcome)
    ensures
        r@ == activation_outcome(state@, meta@, decision@, pause_when_backgrounded),
{
    let same_pid = match state.current() {
        Some(af) => af.pid == meta.pid,
        None => false,
    };
    if same_pid {
        match state {
            FgState::TrackedBackgrounded(af) => {
                return quiet(FgState::TrackedForeground(af), TimerOp::Cancel);
            },
            _ => {
                return Outcome::noop(state);
            },
        }
    }
    match decision {
        GateDecision::Accept(accepted) => {
            let key = native_key(&accepted.executable_path, &accepted.attribution);
            let display_name = display_name_from(meta, &key);
            let new_af = AcceptedForeground {
                pid: meta.pid,
                key: key.clone(),
                executable_path: copy_string(&accepted.executable_path),
            };
            let start_event = TransitionEvent::Start {
                key,
                executable_path: accepted.executable_path,
                display_name,
            };
            match state {
                FgState::NotTracked => {
                    let events = vec![start_event];
                    let r = outcome_of(events, FgState::TrackedForeground(new_af), TimerOp::NoChange);
                    let ghost want = activation_outcome(
                        state@,
                        meta@,
                        decision@,
                        pause_when_backgrounded,
                    );
                    assert(r@.events =~= want.events);
                    assert(r@.timer == want.timer);
                    assert(r@.state == want.state);
                    r
                },
                FgState::TrackedForeground(prev) => {
                    let events = vec![TransitionEvent::Stop { key: prev.key }, start_event];
                    let r = outcome_of(events, FgState::TrackedForeground(new_af), TimerOp::NoChange);
                    assert(r@.events =~= activation_outcome(
                        state@,
                        meta@,
                        decision@,
                        pause_when_backgrounded,
                    ).events);
                    r
                },
                FgState::TrackedBackgrounded(prev) => {
                    let events = vec![TransitionEvent::Stop { key: prev.key }, start_event];
                    let r = outcome_of(events, FgState::TrackedForeground(new_af), TimerOp::Cancel);
                    assert(r@.events =~= activation_outcome(
                        state@,
                        meta@,
                        decision@,
                        pause_when_backgrounded,
                    ).events);
                    r
                },
            }
        },
        GateDecision::Reject(_) => match state {
            FgState::TrackedForeground(af) => {
                if pause_when_backgrounded {
                    quiet(FgState::TrackedBackgrounded(af), TimerOp::Start)
                } else {
                    Outcome::noop(FgState::TrackedForeground(af))
                }
            },
            _ => Outcome::noop(state),
        },
    }
}

/// Handle the grace timer firing. In a backgrounded state the session
/// ends, unless pausing was switched off meanwhile: then the game is
/// tracked again and the session goes on. Other states are unchanged.
pub fn on_grace_timeout(state: FgState, pause_when_backgrounded: bool) -> (r: Outcome)
    ensures
        r@ == grace_timeout_outcome(state@, pause_when_backgrounded),
{
    match state {
        FgState::TrackedBackgrounded(af) => {
            if pause_when_backgrounded {
                let events = vec![TransitionEvent::Stop { key: af.key }];
                let r = outcome_of(events, FgState::NotTracked, TimerOp::NoChange);
                assert(r@.events =~= grace_timeout_outcome(state@, pause_when_backgrounded).events);
                r
            } else {
                quiet(FgState::TrackedForeground(af), TimerOp::NoChange)
            }
        },
        _ => Outcome::noop(state),
    }
}

/// Handle the exit of process `exited_pid`. When it is the tracked
/// process, in either state, the session ends now, without waiting for
/// the grace window.
pub fn on_tracked_exit(state: FgState, exited_pid: u32) -> (r: Outcome)
    ensures
        r@ == exit_outcome(state@, exited_pid),
{
    let key = match state.current() {
        Some(af) => if af.pid == exited_pid {
            Some(af.key.clone())
        } else {
            None
        },
        None => None,
    };
    match key {
        Some(k) => {
            let events = vec![TransitionEvent::Stop { key: k }];
            let r = outcome_of(events, FgState::NotTracked, TimerOp::Cancel);
            assert(r@.events =~= exit_outcome(state@, exited_pid).events);
            r
        },
        None => Outcome::noop(state),
    }
}

// ---------------------------------------------------------------------
// Laws of the transitions.
// ---------------------------------------------------------------------

/// The key of the session state `s` holds open.
pub open spec fn open_key(s: StateView) -> Option<KeyView> {
    match current_of(s) {
        Some(af) => Some(af.key),
        None => None,
    }
}

/// Replay `events` from a point where `open` is the open session:
/// `None` when an event is out of place (a `Start` while a session is
/// open, a `Stop` of a session that is not the open one), else the
/// session open afterwards.
pub open spec fn replay(open: Option<KeyView>, events: Seq<EventView>) -> Option<Option<KeyView>>
    decreases events.len(),
{
    if events.len() == 0 {
        Some(open)
    } else {
        match events[0] {
            EventView::Stop { key } => if open == Some(key) {
                replay(None, events.drop_first())
            } else {
                None
            },
            EventView::Start { key, .. } => if open is None {
                replay(Some(key), events.drop_first())
            } else {
                None
            },
        }
    }
}

/// Whether the grace timer runs after `op`, given whether it ran before.
pub open spec fn armed_after(armed: bool, op: TimerOp) -> bool {
    match op {
        TimerOp::NoChange => armed,
        TimerOp::Start => true,
        TimerOp::Cancel => false,
    }
}

/// Whether `s` is the backgrounded state, the one with a grace timer.
pub open spec fn backgrounded(s: StateView) -> bool {
    s is TrackedBackgrounded
}

/// Sessions are bracketed: the events of an activation close exactly the
/// session that was open (if they close one) before opening another, and
/// the session open afterwards is the one the new state tracks.
pub proof fn lemma_activation_brackets_sessions(
    state: StateView,
    meta: MetaView,
    decision: DecisionView,
    pause_when_backgrounded: bool,
)
    ensures
        replay(
            open_key(state),
            activation_outcome(state, meta, decision, pause_when_backgrounded).events,
        ) == Some(open_key(activation_outcome(state, meta, decision, pause_when_backgrounded).state)),
{
    reveal_with_fuel(replay, 3);
    let o = activation_outcome(state, meta, decision, pause_when_backgrounded);
    if o.events.len() == 2 {
        assert(o.events.drop_first().drop_first() =~= Seq::<EventView>::empty());
        assert(o.events.drop_first() =~= seq![o.events[1]]);
    } else if o.events.len() == 1 {
        assert(o.events.drop_first() =~= Seq::<EventView>::empty());
    }
}

/// Sessions are bracketed when the grace timer fires too: a `Stop`, if
/// any, closes exactly the open session.
pub proof fn lemma_grace_timeout_brackets_sessions(state: StateView, pause_when_backgrounded: bool)
    ensures
        replay(open_key(state), grace_timeout_outcome(state, pause_when_backgrounded).events)
            == Some(open_key(grace_timeout_outcome(state, pause_when_backgrounded).state)),
{
    reveal_with_fuel(replay, 2);
    let o = grace_timeout_outcome(state, pause_when_backgrounded);
    if o.events.len() == 1 {
        assert(o.events.drop_first() =~= Seq::<EventView>::empty());
    }
}

/// Sessions are bracketed when a process exits: a `Stop`, if any, closes
/// exactly the open session.
pub proof fn lemma_exit_brackets_sessions(state: StateView, exited_pid: u32)
    ensures
        replay(open_key(state), exit_outcome(state, exited_pid).events) == Some(
            open_key(exit_outcome(state, exited_pid).state),
        ),
{
    reveal_with_fuel(replay, 2);
    let o = exit_outcome(state, exited_pid);
    if o.events.len() == 1 {
        assert(o.events.drop_first() =~= Seq::<EventView>::empty());
    }
}

/// The grace timer runs exactly while the state is backgrounded: an
/// activation or an exit that starts from a state whose timer runs iff
/// it is backgrounded leaves one where that still holds.
pub proof fn lemma_timer_in_step(
    state: StateView,
    meta: MetaView,
    decision: DecisionView,
    pause_when_backgrounded: bool,
    exited_pid: u32,
)
    ensures
        armed_after(
            backgrounded(state),
            activation_outcome(state, meta, decision, pause_when_backgrounded).timer,
        ) == backgrounded(activation_outcome(state, meta, decision, pause_when_backgrounded).state),
        armed_after(backgrounded(state), exit_outcome(state, exited_pid).timer) == backgrounded(
            exit_outcome(state, exited_pid).state,
        ),
        armed_after(false, grace_timeout_outcome(state, pause_when_backgrounded).timer)
            == backgrounded(grace_timeout_outcome(state, pause_when_backgrounded).state),
{
}

/// The tracked window coming back to the foreground resumes its session:
/// no event, and the same window is tracked in the foreground.
pub proof fn lemma_same_window_resumes(
    state: StateView,
    meta: MetaView,
    decision: DecisionView,
    pause_when_backgrounded: bool,
)
    requires
        current_of(state) is Some,
        current_of(state)->0.pid == meta.pid,
    ensures
        activation_outcome(state, meta, decision, pause_when_backgrounded).events.len() == 0,
        activation_outcome(state, meta, decision, pause_when_backgrounded).state
            == StateView::TrackedForeground(current_of(state)->0),
{
}

/// With pausing off, losing the foreground never ends a session or arms
/// the grace timer, and a leftover timer firing ends nothing either:
/// sessions then end only when the process exits or another game starts.
pub proof fn lemma_no_pause_keeps_sessions(
    state: StateView,
    meta: MetaView,
    reason: RejectionReason,
)
    ensures
        activation_outcome(state, meta, DecisionView::Reject(reason), false).events.len() == 0,
        activation_outcome(state, meta, DecisionView::Reject(reason), false).timer
            != TimerOp::Start,
        open_key(activation_outcome(state, meta, DecisionView::Reject(reason), false).state)
            == open_key(state),
        grace_timeout_outcome(state, false).events.len() == 0,
        open_key(grace_timeout_outcome(state, false).state) == open_key(state),
{
}

/// The exit of the tracked process ends its session at once, in either
/// state; the exit of any other process changes nothing.
pub proof fn lemma_exit_ends_session(state: StateView, exited_pid: u32)
    ensures
        open_key(state) is Some && current_of(state)->0.pid == exited_pid ==> {
            &&& exit_outcome(state, exited_pid).events == seq![
                EventView::Stop { key: open_key(state)->0 },
            ]
            &&& exit_outcome(state, exited_pid).state == StateView::NotTracked
        },
        !(open_key(state) is Some && current_of(state)->0.pid == exited_pid) ==> exit_outcome(
            state,
            exited_pid,
        ) == noop_of(state),
{
}

} // verus!
