//! Decisions of the Wayland idle source (`ext-idle-notify-v1`).
//!
//! The source binds `ext_idle_notifier_v1` at version 2 and arms an
//! input-idle notification, which ignores idle inhibitors (games and
//! Steam set them routinely). Its events drive the [`IdleTracker`]. The
//! connection itself, the event queue and the worker thread live with
//! the daemon; what is decided about them is here.

use vstd::prelude::*;
use crate::idle::{after_hint, IdleTracker};
use crate::clock::ClockReading;
use crate::text::{chars_eq, chars_of};

verus! {

broadcast use vstd::string::group_string_axioms;

/// Milliseconds without input before the compositor reports idle. Only
/// the onset: the cutscene grace is applied when idle is billed.
pub const IDLE_ONSET_MS: u32 = 10000;

/// First reconnect delay, in seconds.
pub const RECONNECT_BACKOFF_INITIAL_SECS: u64 = 1;

/// Longest reconnect delay, in seconds.
pub const RECONNECT_BACKOFF_MAX_SECS: u64 = 60;

/// Seconds the first connection keeps retrying transient failures.
pub const FIRST_CONNECT_WINDOW_SECS: u64 = 60;

/// Seconds the daemon waits for the first setup before giving up on it.
pub const SETUP_WATCHDOG_SECS: u64 = 90;

/// The notifier version that has input-only idle notifications.
pub const REQUIRED_NOTIFIER_VERSION: u32 = 2;

/// An event of an idle notification.
#[derive(Debug, Clone, Copy, PartialEq, Eq, Structural)]
pub enum IdleEvent {
    /// The user went idle.
    Idled,
    /// The user came back.
    Resumed,
    /// An event of a later protocol revision.
    Other,
}

/// The idle state an event reports, if any.
pub open spec fn idle_of(event: IdleEvent) -> Option<bool> {
    match event {
        IdleEvent::Idled => Some(true),
        IdleEvent::Resumed => Some(false),
        IdleEvent::Other => None,
    }
}

/// The idle state an event reports: idled is idle, resumed is not,
/// anything else says nothing.
pub fn event_to_idle(event: IdleEvent) -> (r: Option<bool>)
    ensures
        r == idle_of(event),
{
    match event {
        IdleEvent::Idled => Some(true),
        IdleEvent::Resumed => Some(false),
        IdleEvent::Other => None,
    }
}

/// Apply a notification event, received at monotonic reading `now`, to
/// the tracker.
pub fn handle_notification_event_at(tracker: &mut IdleTracker, event: IdleEvent, now: ClockReading)
    ensures
        match idle_of(event) {
            Some(idle) => final(tracker)@ == after_hint(old(tracker)@, idle, now),
            None => final(tracker)@ == old(tracker)@,
        },
{
    if let Some(idle) = event_to_idle(event) {
        tracker.set_idle_at(idle, now);
    }
}

/// Apply a notification event to the tracker now.
pub fn handle_notification_event(tracker: &mut IdleTracker, event: IdleEvent)
    ensures
        match idle_of(event) {
            Some(idle) => exists|t: ClockReading| final(tracker)@ == after_hint(old(tracker)@, idle, t),
            None => final(tracker)@ == old(tracker)@,
        },
{
    if let Some(idle) = event_to_idle(event) {
        tracker.set_idle(idle);
    }
}

/// Why a connection attempt failed, by whether another attempt could
/// change the answer. Carries the failure's description.
#[derive(Debug)]
pub enum SetupError<E> {
    /// No socket, a refused or dropped connection, or a global not
    /// advertised (yet).
    Transient(E),
    /// The notifier is advertised below version 2; retrying asks the
    /// same compositor the same question.
    Definitive(E),
}

impl<E> SetupError<E> {
    /// The failure's description.
    pub fn into_inner(self) -> (r: E)
        ensures
            r == match self {
                SetupError::Transient(e) => e,
                SetupError::Definitive(e) => e,
            },
    {
        match self {
            SetupError::Transient(e) => e,
            SetupError::Definitive(e) => e,
        }
    }
}

/// The globals the registry advertised that the source needs.
#[derive(Debug, Clone, Copy, PartialEq, Eq)]
pub struct Globals {
    /// `(name, version)` of `ext_idle_notifier_v1`.
    pub notifier: Option<(u32, u32)>,
    /// Name of the first `wl_seat`.
    pub seat: Option<u32>,
}

/// Nothing advertised yet.
pub fn no_globals() -> (r: Globals)
    ensures
        r.notifier is None,
        r.seat is None,
{
    Globals { notifier: None, seat: None }
}

/// The globals after the registry advertises `interface` as `name` at
/// `version`: the notifier is remembered (the latest wins), the first
/// seat is kept, anything else is ignored.
pub open spec fn noted(g: Globals, name: u32, interface: Seq<char>, version: u32) -> Globals {
    if interface == "ext_idle_notifier_v1"@ {
        Globals { notifier: Some((name, version)), ..g }
    } else if interface == "wl_seat"@ && g.seat is None {
        Globals { seat: Some(name), ..g }
    } else {
        g
    }
}

impl Globals {
    /// Note an advertised global.
    pub fn note(&mut self, name: u32, interface: &str, version: u32)
        ensures
            *final(self) == noted(*old(self), name, interface@, version),
    {
        let i = chars_of(interface);
        let n = chars_of("ext_idle_notifier_v1");
        let s = chars_of("wl_seat");
        if chars_eq(i.as_slice(), n.as_slice()) {
            self.notifier = Some((name, version));
        } else if chars_eq(i.as_slice(), s.as_slice()) && self.seat.is_none() {
            self.seat = Some(name);
        }
    }
}

/// What the globals lack for arming the notification.
#[derive(Debug, Clone, Copy, PartialEq, Eq, Structural)]
pub enum SetupProblem {
    /// No `ext_idle_notifier_v1` advertised (perhaps not yet).
    NoNotifier,
    /// The notifier is advertised at this version, below 2.
    NotifierTooOld(u32),
    /// No `wl_seat` advertised (perhaps not yet).
    NoSeat,
}

impl SetupProblem {
    /// Whether retrying could not help.
    pub fn is_definitive(self) -> (r: bool)
        ensures
            r == (self is NotifierTooOld),
    {
        match self {
            SetupProblem::NotifierTooOld(_) => true,
            _ => false,
        }
    }
}

/// The names to bind, notifier then seat, or what is missing.
pub fn binding_targets(g: Globals) -> (r: Result<(u32, u32), SetupProblem>)
    ensures
        g.notifier is None ==> r == Err::<(u32, u32), SetupProblem>(SetupProblem::NoNotifier),
        g.notifier matches Some((n, v)) ==> {
            &&& v < REQUIRED_NOTIFIER_VERSION ==> r == Err::<(u32, u32), SetupProblem>(
                SetupProblem::NotifierTooOld(v),
            )
            &&& v >= REQUIRED_NOTIFIER_VERSION && g.seat is None ==> r == Err::<
                (u32, u32),
                SetupProblem,
            >(SetupProblem::NoSeat)
            &&& (v >= REQUIRED_NOTIFIER_VERSION && g.seat is Some) ==> r == Ok::<
                (u32, u32),
                SetupProblem,
            >((n, g.seat->0))
        },
{
    let (name, version) = match g.notifier {
        Some(nv) => nv,
        None => return Err(SetupProblem::NoNotifier),
    };
    if version < REQUIRED_NOTIFIER_VERSION {
        return Err(SetupProblem::NotifierTooOld(version));
    }
    match g.seat {
        Some(s) => Ok((name, s)),
        None => Err(SetupProblem::NoSeat),
    }
}

/// The reconnect delay after `secs`: doubled, capped at the maximum.
pub fn next_backoff_secs(secs: u64) -> (r: u64)
    requires
        secs <= RECONNECT_BACKOFF_MAX_SECS,
    ensures
        r == (if 2 * secs < RECONNECT_BACKOFF_MAX_SECS {
            2 * secs
        } else {
            RECONNECT_BACKOFF_MAX_SECS as int
        }),
        r <= RECONNECT_BACKOFF_MAX_SECS,
{
    let d = secs * 2;
    if d < RECONNECT_BACKOFF_MAX_SECS {
        d
    } else {
        RECONNECT_BACKOFF_MAX_SECS
    }
}

/// What the first connection does after a failed attempt.
#[derive(Debug, Clone, Copy, PartialEq, Eq, Structural)]
pub enum FirstConnectStep {
    /// Concede to the logind fallback.
    GiveUp,
    /// Wait the backoff and try again.
    Retry,
}

/// After a failed first attempt: a definitive failure, or a transient
/// one past the first-connect window, gives up; otherwise retry.
pub fn first_connect_step(definitive: bool, past_deadline: bool) -> (r: FirstConnectStep)
    ensures
        r == (if definitive || past_deadline {
            FirstConnectStep::GiveUp
        } else {
            FirstConnectStep::Retry
        }),
{
    if definitive || past_deadline {
        FirstConnectStep::GiveUp
    } else {
        FirstConnectStep::Retry
    }
}

} // verus!
