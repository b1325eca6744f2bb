//! The Steam enricher: the name in a game's `appmanifest_<appid>.acf`.

use vstd::prelude::*;
use crate::enrich::identity::{no_identity, IdentityUpdate, IdentityView};
use crate::key::LauncherType;
use crate::paths::{join, join_path};
use crate::sources::steam::placeholder_name;
use crate::text::{chars_of, string_of_chars};
use crate::vdf::{parse_top_level_string, top_level_string};

verus! {

broadcast use vstd::string::group_string_axioms;

/// `appmanifest_<appid>.acf`.
pub open spec fn manifest_file_name(appid: Seq<char>) -> Seq<char> {
    "appmanifest_"@ + appid + ".acf"@
}

/// The manifest of Steam app `appid`, when the application is a Steam
/// one: `<steam_dir>/steamapps/appmanifest_<appid>.acf`.
pub fn steam_manifest_path(launcher_type: LauncherType, steam_dir: &str, appid: &str) -> (r: Option<String>)
    ensures
        launcher_type != LauncherType::Steam ==> r is None,
        launcher_type == LauncherType::Steam ==> (r is Some && r->0@ == join_path(
            join_path(steam_dir@, "steamapps"@),
            manifest_file_name(appid@),
        )),
{
    if launcher_type != LauncherType::Steam {
        return None;
    }
    let apps = join(steam_dir, "steamapps");
    let mut name = chars_of("appmanifest_");
    let a = chars_of(appid);
    let s = chars_of(".acf");
    let ghost start = name@;
    let mut i: usize = 0;
    while i < a.len()
        invariant
            i <= a@.len(),
            name@ == start + a@.take(i as int),
        decreases a.len() - i,
    {
        name.push(a[i]);
        i += 1;
        assert(name@ =~= start + a@.take(i as int));
    }
    let ghost mid = name@;
    let mut j: usize = 0;
    while j < s.len()
        invariant
            j <= s@.len(),
            name@ == mid + s@.take(j as int),
        decreases s.len() - j,
    {
        name.push(s[j]);
        j += 1;
        assert(name@ =~= mid + s@.take(j as int));
    }
    assert(a@.take(i as int) =~= a@);
    assert(s@.take(j as int) =~= s@);
    let file = string_of_chars(&name);
    Some(join(apps.as_str(), file.as_str()))
}

/// The patch a manifest gives: its top-level `name` as product name.
pub open spec fn manifest_patch(content: Seq<char>) -> Option<IdentityView> {
    match top_level_string(content, "name"@) {
        Some(n) => Some(IdentityView { product_name: Some(n), ..no_identity() }),
        None => None,
    }
}

/// The patch from the manifest text `content`.
pub fn steam_patch(content: &str) -> (r: Option<IdentityUpdate>)
    ensures
        match r {
            Some(u) => manifest_patch(content@) == Some(u@),
            None => manifest_patch(content@) is None,
        },
{
    match parse_top_level_string(content, "name") {
        Some(n) => {
            let mut u = IdentityUpdate::default();
            u.product_name = Some(n);
            Some(u)
        },
        None => None,
    }
}

} // verus!
