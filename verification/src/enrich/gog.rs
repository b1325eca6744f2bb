//! The GOG enricher.
//!
//! GOG Galaxy and Heroic put a `goggame-<id>.info` JSON file into a
//! game's install directory with (at least) its canonical `name`. For
//! Proton games the file may sit a directory or two above the
//! executable, so the directories up to three levels above it are
//! searched, nearest first.

use vstd::prelude::*;
use crate::enrich::identity::{no_identity, text_view, IdentityUpdate, IdentityView};
use crate::paths::{ancestor_directories, ancestor_dirs, has_cur, has_extension_ci, has_root, extension_is, normal_parts};
use crate::text::{chars_of, copy_string, is_blank, is_prefix_of, starts_with, trim};

verus! {

broadcast use vstd::string::group_string_axioms;

/// How many directories above the executable are searched.
pub const PARENT_WALK_DEPTH: usize = 3;

/// The directories searched for a `goggame-*.info` file, nearest first.
pub fn gog_search_dirs(exe: &str) -> (r: Vec<String>)
    ensures
        r@.map_values(|s: String| s@) == ancestor_dirs(
            has_root(exe@),
            !has_root(exe@) && has_cur(exe@),
            normal_parts(exe@),
            3,
        ),
{
    ancestor_directories(exe, PARENT_WALK_DEPTH)
}

/// A file name of the `goggame-<id>.info` shape: the `goggame-` prefix
/// and an `info` extension in any ASCII case.
pub open spec fn gog_info_name(file_name: Seq<char>) -> bool {
    is_prefix_of("goggame-"@, file_name) && has_extension_ci(file_name, "info"@)
}

/// Whether `file_name` names a GOG info file.
pub fn is_gog_info_file(file_name: &str) -> (r: bool)
    ensures
        r == gog_info_name(file_name@),
{
    let f = chars_of(file_name);
    let p = chars_of("goggame-");
    starts_with(f.as_slice(), p.as_slice()) && extension_is(file_name, "info")
}

/// The `version` field of an info file, by JSON shape: a string, a
/// number (in its JSON text), or anything else.
#[derive(Debug, Clone, PartialEq, Eq)]
pub enum VersionValue {
    Text(String),
    Number(String),
    Other,
}

/// The version a `version` field gives: a non-blank string as is, a
/// number in its decimal form, nothing for any other shape.
pub open spec fn version_string(v: VersionValue) -> Option<Seq<char>> {
    match v {
        VersionValue::Text(s) => if trim(s@).len() > 0 {
            Some(s@)
        } else {
            None
        },
        VersionValue::Number(n) => Some(n@),
        VersionValue::Other => None,
    }
}

/// Coerce a `version` field to a string.
pub fn value_to_version_string(v: VersionValue) -> (r: Option<String>)
    ensures
        text_view(r) == version_string(v),
{
    match v {
        VersionValue::Text(s) => if is_blank(s.as_str()) {
            None
        } else {
            Some(s)
        },
        VersionValue::Number(n) => Some(n),
        VersionValue::Other => None,
    }
}

/// The fields of an info file this enricher reads.
#[derive(Debug, Clone, PartialEq, Eq)]
pub struct GogInfo {
    pub name: Option<String>,
    pub version: Option<VersionValue>,
}

/// What the directory scan does with one info file.
#[derive(Debug, PartialEq, Eq)]
pub enum GogStep {
    /// The file names the game: this patch.
    Found(IdentityUpdate),
    /// The name is blank: try the next file.
    Skip,
    /// The file does not parse or has no name: give up on the directory.
    StopDirectory,
}

/// The step for an info file, given its parsed fields (`None` when it
/// does not parse).
pub open spec fn gog_step_of(info: Option<GogInfo>) -> Option<Option<IdentityView>> {
    match info {
        None => None,
        Some(i) => match i.name {
            None => None,
            Some(n) => if trim(n@).len() == 0 {
                Some(None)
            } else {
                Some(
                    Some(
                        IdentityView {
                            product_name: Some(n@),
                            version: match i.version {
                                Some(v) => version_string(v),
                                None => None,
                            },
                            ..no_identity()
                        },
                    ),
                )
            },
        },
    }
}

/// Decide on one info file.
pub fn gog_info_step(info: Option<GogInfo>) -> (r: GogStep)
    ensures
        match gog_step_of(info) {
            None => r is StopDirectory,
            Some(None) => r is Skip,
            Some(Some(p)) => r matches GogStep::Found(u) && u@ == p,
        },
{
    let i = match info {
        Some(i) => i,
        None => return GogStep::StopDirectory,
    };
    let name = match i.name {
        Some(n) => n,
        None => return GogStep::StopDirectory,
    };
    if is_blank(name.as_str()) {
        return GogStep::Skip;
    }
    let mut u = IdentityUpdate::default();
    u.product_name = Some(name);
    u.version = match i.version {
        Some(v) => value_to_version_string(v),
        None => None,
    };
    GogStep::Found(u)
}

/// A non-blank string version is kept as written, a number is kept in its
/// JSON text, and a blank string or any other shape gives no version.
pub proof fn lemma_version_by_shape(v: VersionValue)
    ensures
        (match v {
            VersionValue::Text(s) => (trim(s@).len() > 0 ==> version_string(v) == Some(s@)) && (
            trim(s@).len() == 0 ==> version_string(v) is None),
            VersionValue::Number(n) => version_string(v) == Some(n@),
            VersionValue::Other => version_string(v) is None,
        }),
{
}

/// What one info file decides: a file that does not parse, or has no
/// name, ends the directory; a blank name moves on to the next file; a
/// non-blank name is found, and the patch then sets exactly the name, as
/// written, and the version the file gives: a non-blank string as
/// written, a number in its JSON text, nothing otherwise.
pub proof fn lemma_gog_step_by_shape(info: Option<GogInfo>)
    ensures
        info is None ==> gog_step_of(info) is None,
        (match info {
            Some(i) => match i.name {
                None => gog_step_of(info) is None,
                Some(n) => (trim(n@).len() == 0 ==> gog_step_of(info) == Some(
                    None::<IdentityView>,
                )) && (trim(n@).len() > 0 ==> gog_step_of(info) is Some && gog_step_of(
                    info,
                )->0 is Some),
            },
            None => true,
        }),
        (match (info, gog_step_of(info)) {
            (Some(i), Some(Some(p))) => {
                &&& text_view(i.name) == p.product_name
                &&& p.product_name is Some
                &&& p.version == (match i.version {
                    Some(VersionValue::Text(s)) => if trim(s@).len() > 0 {
                        Some(s@)
                    } else {
                        None
                    },
                    Some(VersionValue::Number(n)) => Some(n@),
                    _ => None,
                })
                &&& p.publisher is None
                &&& p.executable_path is None
                &&& p.detected_via is None
            },
            _ => true,
        }),
{
}

} // verus!
