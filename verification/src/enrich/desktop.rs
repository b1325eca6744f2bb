//! The `.desktop` file enricher.
//!
//! A Flatpak application is looked up by `<app-id>.desktop`; a native one
//! by the first desktop file whose `Exec=` (else `TryExec=`) program is
//! its executable. The file's `Name=` is the product name.

use vstd::prelude::*;
use freedesktop_desktop_entry::DesktopEntry;
use crate::enrich::identity::{no_identity, text_view, IdentityUpdate, IdentityView};
use crate::key::LauncherType;
use crate::paths::{extension, extension_of};
use crate::proc::tree::{split_words, words};
use crate::text::{chars_eq, chars_of, string_of_chars};

verus! {

broadcast use vstd::string::group_string_axioms;

/// The `Exec` and `TryExec` keys `freedesktop_desktop_entry` reads from a
/// desktop file at `path` with text `content`, or `None` when the text
/// does not parse.
pub uninterp spec fn desktop_entry_exec(path: Seq<char>, content: Seq<char>) -> Option<(Option<Seq<char>>, Option<Seq<char>>)>;

/// `DesktopEntry::from_str(path, content, None)`, then its `exec()` and
/// `try_exec()`: the result is [`desktop_entry_exec`] of the arguments.
#[verifier::external_body]
fn read_exec_keys(path: &str, content: &str) -> (r: Option<(Option<String>, Option<String>)>)
    ensures
        desktop_entry_exec(path@, content@) == match r {
            Some((e, t)) => Some((text_view(e), text_view(t))),
            None => None,
        },
{
    match DesktopEntry::from_str(path, content, None::<&[&str]>) {
        Ok(entry) => Some((entry.exec().map(str::to_owned), entry.try_exec().map(str::to_owned))),
        Err(_) => None,
    }
}

/// The `Name` value `freedesktop_desktop_entry` reads from the
/// `[Desktop Entry]` group of the desktop file at `path` with text
/// `content`, or `None` when the text does not parse or has no such key.
pub uninterp spec fn desktop_entry_name(path: Seq<char>, content: Seq<char>) -> Option<Seq<char>>;

/// `DesktopEntry::from_str(path, content, None)`, then its unlocalised
/// `name()`: [`desktop_entry_name`] of the arguments. The crate is built
/// without its `gettext` feature, so `name` with no locales is the
/// group's default `Name` value as written.
#[verifier::external_body]
fn read_name(path: &str, content: &str) -> (r: Option<String>)
    ensures
        text_view(r) == desktop_entry_name(path@, content@),
{
    match DesktopEntry::from_str(path, content, None::<&[&str]>) {
        Ok(entry) => entry.name(&[] as &[&str]).map(|n| n.into_owned()),
        Err(_) => None,
    }
}

/// The program an `Exec=` (else `TryExec=`) line runs: its first word.
pub open spec fn exec_program(keys: Option<(Option<Seq<char>>, Option<Seq<char>>)>) -> Option<Seq<char>> {
    match keys {
        None => None,
        Some((e, t)) => {
            let line = if e is Some {
                e
            } else {
                t
            };
            match line {
                Some(l) => if words(l).len() > 0 {
                    Some(words(l)[0])
                } else {
                    None
                },
                None => None,
            }
        },
    }
}

/// The program the desktop file at `path` with text `content` runs.
pub fn desktop_exec_program(path: &str, content: &str) -> (r: Option<String>)
    ensures
        text_view(r) == exec_program(desktop_entry_exec(path@, content@)),
{
    let keys = read_exec_keys(path, content);
    let (e, t) = match keys {
        Some(k) => k,
        None => return None,
    };
    let line = match e {
        Some(x) => x,
        None => match t {
            Some(y) => y,
            None => return None,
        },
    };
    let lc = chars_of(line.as_str());
    let w = split_words(lc.as_slice());
    if w.len() == 0 {
        return None;
    }
    assert(w@.map_values(|x: Vec<char>| x@)[0] == w@[0]@);
    Some(string_of_chars(&w[0]))
}

/// The patch of a desktop file named `name`: the name as product name.
pub open spec fn name_patch(name: Option<Seq<char>>) -> Option<IdentityView> {
    match name {
        Some(n) => Some(IdentityView { product_name: Some(n), ..no_identity() }),
        None => None,
    }
}

/// The patch for a `Name=` value, if the file has one.
pub fn desktop_name_patch(name: Option<String>) -> (r: Option<IdentityUpdate>)
    ensures
        match r {
            Some(u) => name_patch(text_view(name)) == Some(u@),
            None => name is None,
        },
{
    match name {
        Some(n) => {
            let mut u = IdentityUpdate::default();
            u.product_name = Some(n);
            Some(u)
        },
        None => None,
    }
}

/// The patch of the desktop file at `path` with text `content`: its name
/// as product name, exactly when it parses and has one.
pub fn desktop_file_patch(path: &str, content: &str) -> (r: Option<IdentityUpdate>)
    ensures
        match r {
            Some(u) => name_patch(desktop_entry_name(path@, content@)) == Some(u@),
            None => desktop_entry_name(path@, content@) is None,
        },
{
    desktop_name_patch(read_name(path, content))
}

/// `<app_id>.desktop`.
pub open spec fn flatpak_file_name(app_id: Seq<char>) -> Seq<char> {
    app_id + ".desktop"@
}

/// The desktop file name of Flatpak application `app_id`.
pub fn flatpak_desktop_file_name(app_id: &str) -> (r: String)
    ensures
        r@ == flatpak_file_name(app_id@),
{
    let mut out = chars_of(app_id);
    let suffix = chars_of(".desktop");
    let ghost start = out@;
    let mut i: usize = 0;
    while i < suffix.len()
        invariant
            i <= suffix@.len(),
            out@ == start + suffix@.take(i as int),
        decreases suffix.len() - i,
    {
        out.push(suffix[i]);
        i += 1;
        assert(out@ =~= start + suffix@.take(i as int));
    }
    assert(suffix@.take(i as int) =~= suffix@);
    string_of_chars(&out)
}

/// Whether `path` has the extension `desktop` (exactly).
pub fn is_desktop_file(path: &str) -> (r: bool)
    ensures
        r == (extension(path@) == Some("desktop"@)),
{
    match extension_of(path) {
        Some(e) => {
            let d = chars_of("desktop");
            chars_eq(e.as_slice(), d.as_slice())
        },
        None => false,
    }
}

/// How the desktop enricher looks for an application's file.
#[derive(Debug, Clone, Copy, PartialEq, Eq, Structural)]
pub enum DesktopLookup {
    /// By `<app-id>.desktop`.
    ByAppId,
    /// By the program of `Exec=`.
    ByExecutable,
    /// Not at all: the launcher has an authoritative enricher.
    Skip,
}

/// The lookup for an application of `launcher_type`: Flatpak by app id,
/// native by executable, others not at all.
pub fn desktop_lookup(launcher_type: LauncherType) -> (r: DesktopLookup)
    ensures
        r == match launcher_type {
            LauncherType::Flatpak => DesktopLookup::ByAppId,
            LauncherType::Native => DesktopLookup::ByExecutable,
            _ => DesktopLookup::Skip,
        },
{
    match launcher_type {
        LauncherType::Flatpak => DesktopLookup::ByAppId,
        LauncherType::Native => DesktopLookup::ByExecutable,
        _ => DesktopLookup::Skip,
    }
}

} // verus!
