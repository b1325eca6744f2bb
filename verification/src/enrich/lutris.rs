//! The Lutris enricher.
//!
//! Lutris keeps its installed games, with display name and install
//! directory, in `pga.db`. The game whose directory is the longest
//! path-component prefix of the application's executable is the match;
//! its name is the product name. Battle.net is the exception: its Lutris
//! row is the launcher itself, which hosts every Blizzard game, so the
//! executable's basename is looked up in a curated table instead.

use vstd::prelude::*;
use crate::enrich::heroic::byte_len;
use crate::enrich::identity::{no_identity, IdentityUpdate, IdentityView};
use crate::paths::{path_starts_with, starts_with_path};
use crate::text::{ascii_lower, ascii_lower_chars, chars_eq, chars_of, copy_string, file_name, file_name_chars, string_of_chars};

verus! {

broadcast use vstd::string::group_string_axioms;

/// An installed game of Lutris's database.
#[derive(Debug, Clone, PartialEq, Eq)]
pub struct LutrisGame {
    pub name: String,
    pub directory: String,
}

/// Index of the game whose directory is the longest component prefix of
/// `exe` among the first `upto` (the last of equally long ones), or `-1`.
pub open spec fn longest_directory_prefix(games: Seq<LutrisGame>, exe: Seq<char>, upto: int) -> int
    decreases upto,
{
    if upto <= 0 {
        -1
    } else {
        let b = longest_directory_prefix(games, exe, upto - 1);
        let g = games[upto - 1];
        if path_starts_with(exe, g.directory@) && (b == -1 || byte_len(g.directory@) >= byte_len(
            games[b].directory@,
        )) {
            upto - 1
        } else {
            b
        }
    }
}

proof fn lemma_longest_directory_prefix_range(games: Seq<LutrisGame>, exe: Seq<char>, upto: int)
    requires
        0 <= upto,
    ensures
        -1 <= longest_directory_prefix(games, exe, upto) < upto,
    decreases upto,
{
    if upto > 0 {
        lemma_longest_directory_prefix_range(games, exe, upto - 1);
    }
}

/// The game whose directory is the longest path-component prefix of
/// `exe_path`; `/home/u/Games/foo` does not match `/home/u/Games/foobar/..`.
pub fn best_match<'a>(games: &'a [LutrisGame], exe_path: &str) -> (r: Option<&'a LutrisGame>)
    ensures
        ({
            let i = longest_directory_prefix(games@, exe_path@, games@.len() as int);
            match r {
                Some(g) => 0 <= i < games@.len() && *g == games@[i],
                None => i == -1,
            }
        }),
{
    let mut best: Option<usize> = None;
    let mut best_len: usize = 0;
    let mut i: usize = 0;
    while i < games.len()
        invariant
            i <= games@.len(),
            ({
                let b = longest_directory_prefix(games@, exe_path@, i as int);
                match best {
                    Some(k) => b == k && k < i && best_len == byte_len(games@[k as int].directory@),
                    None => b == -1,
                }
            }),
        decreases games.len() - i,
    {
        proof {
            lemma_longest_directory_prefix_range(games@, exe_path@, i as int);
        }
        if starts_with_path(exe_path, games[i].directory.as_str()) {
            let len = games[i].directory.as_str().len();
            match best {
                None => {
                    best = Some(i);
                    best_len = len;
                },
                Some(_) => {
                    if len >= best_len {
                        best = Some(i);
                        best_len = len;
                    }
                },
            }
        }
        i += 1;
    }
    match best {
        Some(k) => Some(&games[k]),
        None => None,
    }
}

/// The title of a Battle.net game, by the lowercased basename of its
/// executable.
pub open spec fn curated_title(key: Seq<char>) -> Option<Seq<char>> {
    if key == "wow.exe"@ || key == "wowclassic.exe"@ {
        Some("World of Warcraft"@)
    } else if key == "diablo iv.exe"@ {
        Some("Diablo IV"@)
    } else if key == "diablo iii.exe"@ || key == "diablo iii64.exe"@ {
        Some("Diablo III"@)
    } else if key == "diablo ii resurrected.exe"@ {
        Some("Diablo II: Resurrected"@)
    } else if key == "overwatch.exe"@ {
        Some("Overwatch 2"@)
    } else if key == "hearthstone.exe"@ {
        Some("Hearthstone"@)
    } else if key == "starcraft.exe"@ {
        Some("StarCraft: Remastered"@)
    } else if key == "starcraft ii.exe"@ || key == "sc2.exe"@ {
        Some("StarCraft II"@)
    } else if key == "heroes of the storm.exe"@ || key == "heroesoftheswarm.exe"@ {
        Some("Heroes of the Storm"@)
    } else if key == "warcraft iii.exe"@ || key == "wc3.exe"@ {
        Some("Warcraft III: Reforged"@)
    } else {
        None
    }
}

/// Whether `a` spells the literal `lit`.
fn is_lit(a: &[char], lit: &str) -> (r: bool)
    ensures
        r == (a@ == lit@),
{
    let l = chars_of(lit);
    chars_eq(a, l.as_slice())
}

/// The display name of a Battle.net game from its executable's basename,
/// matched without regard to ASCII case.
pub fn curated_battlenet_game(basename: &str) -> (r: Option<String>)
    ensures
        match r {
            Some(t) => curated_title(ascii_lower(basename@)) == Some(t@),
            None => curated_title(ascii_lower(basename@)) is None,
        },
{
    let b = chars_of(basename);
    let k = ascii_lower_chars(b.as_slice());
    let key = k.as_slice();
    if is_lit(key, "wow.exe") || is_lit(key, "wowclassic.exe") {
        Some("World of Warcraft".to_owned())
    } else if is_lit(key, "diablo iv.exe") {
        Some("Diablo IV".to_owned())
    } else if is_lit(key, "diablo iii.exe") || is_lit(key, "diablo iii64.exe") {
        Some("Diablo III".to_owned())
    } else if is_lit(key, "diablo ii resurrected.exe") {
        Some("Diablo II: Resurrected".to_owned())
    } else if is_lit(key, "overwatch.exe") {
        Some("Overwatch 2".to_owned())
    } else if is_lit(key, "hearthstone.exe") {
        Some("Hearthstone".to_owned())
    } else if is_lit(key, "starcraft.exe") {
        Some("StarCraft: Remastered".to_owned())
    } else if is_lit(key, "starcraft ii.exe") || is_lit(key, "sc2.exe") {
        Some("StarCraft II".to_owned())
    } else if is_lit(key, "heroes of the storm.exe") || is_lit(key, "heroesoftheswarm.exe") {
        Some("Heroes of the Storm".to_owned())
    } else if is_lit(key, "warcraft iii.exe") || is_lit(key, "wc3.exe") {
        Some("Warcraft III: Reforged".to_owned())
    } else {
        None
    }
}

/// The product name and publisher for a Lutris row named `lutris_name`
/// matched by executable `exe`: a Battle.net row (any ASCII case) with a
/// curated basename gives the curated title and Blizzard as publisher;
/// otherwise the row's name, no publisher.
pub open spec fn lutris_identity(lutris_name: Seq<char>, exe: Seq<char>) -> (Seq<char>, Option<Seq<char>>) {
    if ascii_lower(lutris_name) == "battle.net"@ && file_name(exe) is Some && curated_title(
        ascii_lower(file_name(exe)->0),
    ) is Some {
        (curated_title(ascii_lower(file_name(exe)->0))->0, Some("Blizzard Entertainment"@))
    } else {
        (lutris_name, None)
    }
}

/// The product name and publisher for a Lutris match.
pub fn resolve_identity(lutris_name: &str, exe_path: &str) -> (r: (String, Option<String>))
    ensures
        (r.0@, match r.1 {
            Some(p) => Some(p@),
            None => None,
        }) == lutris_identity(lutris_name@, exe_path@),
{
    let n = chars_of(lutris_name);
    let lower = ascii_lower_chars(n.as_slice());
    if is_lit(lower.as_slice(), "battle.net") {
        let e = chars_of(exe_path);
        if let Some(base) = file_name_chars(e.as_slice()) {
            let b = string_of_chars(&base);
            if let Some(title) = curated_battlenet_game(b.as_str()) {
                return (title, Some("Blizzard Entertainment".to_owned()));
            }
        }
    }
    (lutris_name.to_owned(), None)
}

/// The patch a Lutris match contributes: product name and publisher.
pub open spec fn lutris_patch_of(lutris_name: Seq<char>, exe: Seq<char>) -> IdentityView {
    IdentityView {
        product_name: Some(lutris_identity(lutris_name, exe).0),
        publisher: lutris_identity(lutris_name, exe).1,
        ..no_identity()
    }
}

/// The patch for an application with executable `exe_path` from the
/// installed Lutris `games`: the best match's identity, if any game
/// matches.
pub fn lutris_patch(games: &[LutrisGame], exe_path: &str) -> (r: Option<IdentityUpdate>)
    ensures
        ({
            let i = longest_directory_prefix(games@, exe_path@, games@.len() as int);
            match r {
                Some(p) => 0 <= i < games@.len() && p@ == lutris_patch_of(games@[i].name@, exe_path@),
                None => i == -1,
            }
        }),
{
    match best_match(games, exe_path) {
        Some(g) => {
            let (name, publisher) = resolve_identity(g.name.as_str(), exe_path);
            let mut p = IdentityUpdate::default();
            p.product_name = Some(name);
            p.publisher = publisher;
            Some(p)
        },
        None => None,
    }
}

/// The curated Battle.net table, executable by executable (keys are
/// lower-cased basenames).
pub proof fn lemma_curated_titles()
    ensures
        curated_title("wow.exe"@) == Some("World of Warcraft"@),
        curated_title("wowclassic.exe"@) == Some("World of Warcraft"@),
        curated_title("diablo iv.exe"@) == Some("Diablo IV"@),
        curated_title("diablo iii.exe"@) == Some("Diablo III"@),
        curated_title("diablo iii64.exe"@) == Some("Diablo III"@),
        curated_title("diablo ii resurrected.exe"@) == Some("Diablo II: Resurrected"@),
        curated_title("overwatch.exe"@) == Some("Overwatch 2"@),
        curated_title("hearthstone.exe"@) == Some("Hearthstone"@),
        curated_title("starcraft.exe"@) == Some("StarCraft: Remastered"@),
        curated_title("starcraft ii.exe"@) == Some("StarCraft II"@),
        curated_title("sc2.exe"@) == Some("StarCraft II"@),
        curated_title("heroes of the storm.exe"@) == Some("Heroes of the Storm"@),
        curated_title("heroesoftheswarm.exe"@) == Some("Heroes of the Storm"@),
        curated_title("warcraft iii.exe"@) == Some("Warcraft III: Reforged"@),
        curated_title("wc3.exe"@) == Some("Warcraft III: Reforged"@),
{
    reveal_strlit("wow.exe");
    reveal_strlit("wowclassic.exe");
    reveal_strlit("diablo iv.exe");
    reveal_strlit("diablo iii.exe");
    reveal_strlit("diablo iii64.exe");
    reveal_strlit("diablo ii resurrected.exe");
    reveal_strlit("overwatch.exe");
    reveal_strlit("hearthstone.exe");
    reveal_strlit("starcraft.exe");
    reveal_strlit("starcraft ii.exe");
    reveal_strlit("sc2.exe");
    reveal_strlit("heroes of the storm.exe");
    reveal_strlit("heroesoftheswarm.exe");
    reveal_strlit("warcraft iii.exe");
    reveal_strlit("wc3.exe");
    assert("wow.exe"@.len() == 7);
    assert("wowclassic.exe"@.len() == 14);
    assert("diablo iv.exe"@.len() == 13);
    assert("diablo iii.exe"@.len() == 14);
    assert("diablo iii64.exe"@.len() == 16);
    assert("diablo ii resurrected.exe"@.len() == 25);
    assert("overwatch.exe"@.len() == 13);
    assert("hearthstone.exe"@.len() == 15);
    assert("starcraft.exe"@.len() == 13);
    assert("starcraft ii.exe"@.len() == 16);
    assert("sc2.exe"@.len() == 7);
    assert("heroes of the storm.exe"@.len() == 23);
    assert("heroesoftheswarm.exe"@.len() == 20);
    assert("warcraft iii.exe"@.len() == 16);
    assert("wc3.exe"@.len() == 7);
    assert("diablo iii.exe"@[0] != "wowclassic.exe"@[0]);
    assert("overwatch.exe"@[0] != "diablo iv.exe"@[0]);
    assert("starcraft.exe"@[0] != "diablo iv.exe"@[0]);
    assert("starcraft.exe"@[0] != "overwatch.exe"@[0]);
    assert("starcraft ii.exe"@[0] != "diablo iii64.exe"@[0]);
    assert("sc2.exe"@[0] != "wow.exe"@[0]);
    assert("warcraft iii.exe"@[0] != "diablo iii64.exe"@[0]);
    assert("warcraft iii.exe"@[0] != "starcraft ii.exe"@[0]);
    assert("wc3.exe"@[1] != "wow.exe"@[1]);
    assert("wc3.exe"@[0] != "sc2.exe"@[0]);
}

/// A Battle.net row (in any ASCII case) whose executable has a curated
/// basename, in any ASCII case, is named by the curated title and
/// published by Blizzard; a row with any other name keeps its own name
/// and gets no publisher.
pub proof fn lemma_battlenet_identity(lutris_name: Seq<char>, exe: Seq<char>, base: Seq<char>, title: Seq<char>)
    ensures
        ascii_lower(lutris_name) == "battle.net"@ && file_name(exe) == Some(base) && curated_title(
            ascii_lower(base),
        ) == Some(title) ==> lutris_identity(lutris_name, exe) == (
            title,
            Some("Blizzard Entertainment"@),
        ),
        ascii_lower(lutris_name) != "battle.net"@ ==> lutris_identity(lutris_name, exe) == (
            lutris_name,
            None::<Seq<char>>,
        ),
        file_name(exe) is None ==> lutris_identity(lutris_name, exe) == (
            lutris_name,
            None::<Seq<char>>,
        ),
{
}

} // verus!
