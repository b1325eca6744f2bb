//! What the KWin foreground source decides outside the transitions:
//! reading the compositor's activation report, and which process ids a
//! `pidfd` can watch.

use vstd::prelude::*;
use crate::text::{chars_eq, chars_of, parse_u32, parse_u32_chars};

verus! {

broadcast use vstd::string::group_string_axioms;

/// A foreground-window activation reported by the KWin script.
#[derive(Debug, Clone, PartialEq, Eq)]
pub struct Activation {
    pub pid: u32,
    pub is_fullscreen: bool,
    pub resource_class: String,
    pub caption: String,
}

/// The script reports fullscreen as `true` or `1`.
pub open spec fn reads_as_fullscreen(s: Seq<char>) -> bool {
    s == "true"@ || s == "1"@
}

/// Read an activation report; the script sends every argument as a
/// string. A pid that is not a `u32` drops the report.
pub fn parse_activation(
    pid: &str,
    is_fullscreen: &str,
    resource_class: String,
    caption: String,
) -> (r: Option<Activation>)
    ensures
        match r {
            Some(a) => parse_u32(pid@) == Some(a.pid) && a.is_fullscreen == reads_as_fullscreen(
                is_fullscreen@,
            ) && a.resource_class@ == resource_class@ && a.caption@ == caption@,
            None => parse_u32(pid@) is None,
        },
{
    let pc = chars_of(pid);
    let pid = match parse_u32_chars(pc.as_slice()) {
        Some(p) => p,
        None => return None,
    };
    let fc = chars_of(is_fullscreen);
    let t = chars_of("true");
    let one = chars_of("1");
    let fullscreen = chars_eq(fc.as_slice(), t.as_slice()) || chars_eq(fc.as_slice(), one.as_slice());
    Some(Activation { pid, is_fullscreen: fullscreen, resource_class, caption })
}

/// Why a process id cannot be watched with a `pidfd`.
#[derive(Debug, Clone, Copy, PartialEq, Eq, Structural)]
pub enum PidfdTargetError {
    /// The pid does not fit in the kernel's `pid_t`.
    TooLarge,
    /// Pid zero names no process.
    Zero,
}

/// The `pid_t` a `pidfd` for `pid` is opened on.
pub fn pidfd_target(pid: u32) -> (r: Result<i32, PidfdTargetError>)
    ensures
        pid > i32::MAX ==> r == Err::<i32, PidfdTargetError>(PidfdTargetError::TooLarge),
        pid == 0 ==> r == Err::<i32, PidfdTargetError>(PidfdTargetError::Zero),
        0 < pid <= i32::MAX ==> r == Ok::<i32, PidfdTargetError>(pid as i32),
{
    if pid > i32::MAX as u32 {
        return Err(PidfdTargetError::TooLarge);
    }
    if pid == 0 {
        return Err(PidfdTargetError::Zero);
    }
    Ok(pid as i32)
}

/// Whether an activation of `pid` concerns the daemon itself, which is
/// never a game.
pub fn is_own_window(pid: u32, self_pid: u32) -> (r: bool)
    ensures
        r == (pid == self_pid),
{
    pid == self_pid
}

} // verus!
