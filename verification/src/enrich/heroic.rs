//! The Heroic Games Launcher enricher.
//!
//! Heroic keeps one library cache per runner (Legendary for Epic, GOG,
//! Nile for Amazon) under `<heroic config>/store_cache/`. Installed
//! entries with an install path are matched against the application: a
//! `Heroic` application by its app name (the `HEROIC_APP_NAME` the game check
//! captured), a `Native` one by the longest install path that is a
//! component prefix of its executable. The match supplies the title as
//! product name, the developer as publisher, and the install path joined
//! with the entry's executable as the real executable path.

use vstd::prelude::*;
use crate::enrich::identity::{no_identity, text_view, IdentityUpdate, IdentityView};
use crate::key::LauncherType;
use crate::paths::{join, join_path, path_starts_with, starts_with_path};
use crate::text::{chars_eq, chars_of, copy_string, is_blank, string_of_chars, trim, trim_chars};

verus! {

broadcast use vstd::string::group_string_axioms;

/// The runner library caches, under `store_cache/`.
pub open spec fn library_file_names() -> Seq<Seq<char>> {
    seq!["legendary_library.json"@, "gog_library.json"@, "nile_library.json"@]
}

/// The paths of the runner library caches of the Heroic configuration
/// directory `heroic_dir`.
pub fn library_cache_paths(heroic_dir: &str) -> (r: Vec<String>)
    ensures
        r@.len() == 3,
        forall|i: int|
            0 <= i < 3 ==> (#[trigger] r@[i])@ == join_path(
                join_path(heroic_dir@, "store_cache"@),
                library_file_names()[i],
            ),
{
    let cache = join(heroic_dir, "store_cache");
    let mut out: Vec<String> = Vec::new();
    out.push(join(cache.as_str(), "legendary_library.json"));
    out.push(join(cache.as_str(), "gog_library.json"));
    out.push(join(cache.as_str(), "nile_library.json"));
    assert(library_file_names()[0] == "legendary_library.json"@);
    assert(library_file_names()[1] == "gog_library.json"@);
    assert(library_file_names()[2] == "nile_library.json"@);
    out
}

/// The `install` object of a library entry, as read.
#[derive(Debug, Clone)]
pub struct InstallInfo {
    pub install_path: Option<String>,
    pub executable: Option<String>,
}

/// A library entry, as read: the fields this enricher uses.
#[derive(Debug, Clone)]
pub struct GameEntry {
    pub app_name: Option<String>,
    pub title: Option<String>,
    pub developer: Option<String>,
    pub is_installed: bool,
    pub install: Option<InstallInfo>,
}

/// An installed Heroic game.
#[derive(Debug, Clone, PartialEq, Eq)]
pub struct HeroicGame {
    pub app_name: String,
    pub title: String,
    pub developer: Option<String>,
    pub install_path: String,
    /// The game's executable, relative to `install_path`.
    pub executable: Option<String>,
}

/// `s` when it is set and not blank.
pub open spec fn non_blank(s: Option<Seq<char>>) -> Option<Seq<char>> {
    match s {
        Some(v) => if trim(v).len() > 0 {
            Some(v)
        } else {
            None
        },
        None => None,
    }
}

/// `s` when it is set and not blank.
fn keep_non_blank(s: &Option<String>) -> (r: Option<String>)
    ensures
        text_view(r) == non_blank(text_view(*s)),
{
    match s {
        Some(v) => if is_blank(v.as_str()) {
            None
        } else {
            Some(copy_string(v))
        },
        None => None,
    }
}

/// The installed game an entry describes: it must be installed and have
/// a non-blank app name, install path and title. Blank developer and
/// executable read as absent.
pub open spec fn entry_game(e: GameEntry) -> Option<(Seq<char>, Seq<char>, Option<Seq<char>>, Seq<char>, Option<Seq<char>>)> {
    if !e.is_installed || non_blank(text_view(e.app_name)) is None || e.install is None
        || non_blank(text_view(e.install->0.install_path)) is None || non_blank(
        text_view(e.title),
    ) is None {
        None
    } else {
        Some(
            (
                non_blank(text_view(e.app_name))->0,
                non_blank(text_view(e.title))->0,
                non_blank(text_view(e.developer)),
                non_blank(text_view(e.install->0.install_path))->0,
                non_blank(text_view(e.install->0.executable)),
            ),
        )
    }
}

/// The view of a game.
pub open spec fn game_view(g: HeroicGame) -> (Seq<char>, Seq<char>, Option<Seq<char>>, Seq<char>, Option<Seq<char>>) {
    (g.app_name@, g.title@, text_view(g.developer), g.install_path@, text_view(g.executable))
}

/// The installed game an entry describes, if any.
pub fn installed_game(e: &GameEntry) -> (r: Option<HeroicGame>)
    ensures
        match r {
            Some(g) => entry_game(*e) == Some(game_view(g)),
            None => entry_game(*e) is None,
        },
{
    if !e.is_installed {
        return None;
    }
    let app_name = match keep_non_blank(&e.app_name) {
        Some(a) => a,
        None => return None,
    };
    let install = match &e.install {
        Some(i) => i,
        None => return None,
    };
    let install_path = match keep_non_blank(&install.install_path) {
        Some(p) => p,
        None => return None,
    };
    let title = match keep_non_blank(&e.title) {
        Some(t) => t,
        None => return None,
    };
    Some(
        HeroicGame {
            app_name,
            title,
            developer: keep_non_blank(&e.developer),
            install_path,
            executable: keep_non_blank(&install.executable),
        },
    )
}

/// The installed games of a library's entries, in order.
pub fn installed_games(entries: &Vec<GameEntry>) -> (r: Vec<HeroicGame>)
    ensures
        r@.map_values(|g: HeroicGame| game_view(g)) == installed_of(entries@),
{
    let mut out: Vec<HeroicGame> = Vec::new();
    let mut i: usize = 0;
    while i < entries.len()
        invariant
            i <= entries@.len(),
            out@.map_values(|g: HeroicGame| game_view(g)) == installed_of(entries@.take(i as int)),
        decreases entries.len() - i,
    {
        assert(entries@.take(i + 1).drop_last() =~= entries@.take(i as int));
        let ghost before = out@;
        if let Some(g) = installed_game(&entries[i]) {
            out.push(g);
            assert(out@.map_values(|g: HeroicGame| game_view(g)) =~= before.map_values(
                |g: HeroicGame| game_view(g),
            ).push(game_view(out@.last())));
        }
        i += 1;
    }
    assert(entries@.take(i as int) =~= entries@);
    out
}

/// The games of `entries` that [`entry_game`] keeps, in order.
pub open spec fn installed_of(entries: Seq<GameEntry>) -> Seq<(Seq<char>, Seq<char>, Option<Seq<char>>, Seq<char>, Option<Seq<char>>)>
    decreases entries.len(),
{
    if entries.len() == 0 {
        seq![]
    } else {
        let before = installed_of(entries.drop_last());
        match entry_game(entries.last()) {
            Some(g) => before.push(g),
            None => before,
        }
    }
}

// ---------------------------------------------------------------------
// Matching.
// ---------------------------------------------------------------------

/// Index of the first game with app name `name`, or `games.len()`.
pub open spec fn first_with_app_name(games: Seq<HeroicGame>, name: Seq<char>) -> int
    decreases games.len(),
{
    if games.len() == 0 {
        0
    } else if games[0].app_name@ == name {
        0
    } else {
        1 + first_with_app_name(games.drop_first(), name)
    }
}

/// The first game whose app name is `app_name`.
pub fn find_by_app_name<'a>(games: &'a [HeroicGame], app_name: &str) -> (r: Option<&'a HeroicGame>)
    ensures
        ({
            let i = first_with_app_name(games@, app_name@);
            match r {
                Some(g) => 0 <= i < games@.len() && *g == games@[i],
                None => i >= games@.len(),
            }
        }),
{
    let target = chars_of(app_name);
    let mut i: usize = 0;
    assert(games@.skip(0) =~= games@);
    while i < games.len()
        invariant
            i <= games@.len(),
            target@ == app_name@,
            first_with_app_name(games@, app_name@) == i + first_with_app_name(
                games@.skip(i as int),
                app_name@,
            ),
        decreases games.len() - i,
    {
        assert(games@.skip(i as int)[0] == games@[i as int]);
        let c = chars_of(games[i].app_name.as_str());
        if chars_eq(c.as_slice(), target.as_slice()) {
            return Some(&games[i]);
        }
        assert(games@.skip(i as int).drop_first() =~= games@.skip(i + 1));
        i += 1;
    }
    None
}

/// Byte length of a string (`str::len`).
pub open spec fn byte_len(s: Seq<char>) -> usize {
    vstd::utf8::encode_utf8(s).len() as usize
}

/// Index of the game whose install path is the longest component prefix
/// of `exe` among the first `upto` games (the last of equally long ones,
/// as `Iterator::max_by_key` picks), or `-1`.
pub open spec fn longest_install_prefix(games: Seq<HeroicGame>, exe: Seq<char>, upto: int) -> int
    decreases upto,
{
    if upto <= 0 {
        -1
    } else {
        let b = longest_install_prefix(games, exe, upto - 1);
        let g = games[upto - 1];
        if path_starts_with(exe, g.install_path@) && (b == -1 || byte_len(g.install_path@)
            >= byte_len(games[b].install_path@)) {
            upto - 1
        } else {
            b
        }
    }
}

proof fn lemma_longest_install_prefix_range(games: Seq<HeroicGame>, exe: Seq<char>, upto: int)
    requires
        0 <= upto,
    ensures
        -1 <= longest_install_prefix(games, exe, upto) < upto,
    decreases upto,
{
    if upto > 0 {
        lemma_longest_install_prefix_range(games, exe, upto - 1);
    }
}

/// The game whose install directory is the longest path-component
/// prefix of `exe_path`: `/foo/bar` does not match `/foo/barbaz`.
pub fn find_by_install_path<'a>(games: &'a [HeroicGame], exe_path: &str) -> (r: Option<&'a HeroicGame>)
    ensures
        ({
            let i = longest_install_prefix(games@, exe_path@, games@.len() as int);
            match r {
                Some(g) => 0 <= i < games@.len() && *g == games@[i],
                None => i == -1,
            }
        }),
{
    let mut best: Option<usize> = None;
    let mut best_len: usize = 0;
    let mut i: usize = 0;
    while i < games.len()
        invariant
            i <= games@.len(),
            ({
                let b = longest_install_prefix(games@, exe_path@, i as int);
                match best {
                    Some(k) => b == k && k < i && best_len == byte_len(games@[k as int].install_path@),
                    None => b == -1,
                }
            }),
        decreases games.len() - i,
    {
        proof {
            lemma_longest_install_prefix_range(games@, exe_path@, i as int);
        }
        let ghost b = longest_install_prefix(games@, exe_path@, i as int);
        assert(longest_install_prefix(games@, exe_path@, i + 1) == (if path_starts_with(
            exe_path@,
            games@[i as int].install_path@,
        ) && (b == -1 || byte_len(games@[i as int].install_path@) >= byte_len(
            games@[b].install_path@,
        )) {
            i as int
        } else {
            b
        }));
        if starts_with_path(exe_path, games[i].install_path.as_str()) {
            let len = games[i].install_path.as_str().len();
            assert(len == byte_len(games@[i as int].install_path@));
            match best {
                None => {
                    best = Some(i);
                    best_len = len;
                },
                Some(_) => {
                    if len >= best_len {
                        best = Some(i);
                        best_len = len;
                    }
                },
            }
        }
        i += 1;
    }
    match best {
        Some(k) => Some(&games[k]),
        None => None,
    }
}

/// The real executable of a game: the install path joined with its
/// executable (trimmed), when it has a non-blank one.
pub open spec fn real_executable(g: HeroicGame) -> Option<Seq<char>> {
    match g.executable {
        Some(e) => if trim(e@).len() > 0 {
            Some(join_path(g.install_path@, trim(e@)))
        } else {
            None
        },
        None => None,
    }
}

/// The absolute path of a game's own executable, rather than the Wine
/// preloader the daemon saw.
pub fn real_executable_path(game: &HeroicGame) -> (r: Option<String>)
    ensures
        text_view(r) == real_executable(*game),
{
    let exe = match &game.executable {
        Some(e) => e,
        None => return None,
    };
    let ec = chars_of(exe.as_str());
    let t = trim_chars(ec.as_slice());
    if t.len() == 0 {
        return None;
    }
    let ts = string_of_chars(&t);
    Some(join(game.install_path.as_str(), ts.as_str()))
}

/// The patch a matched game contributes: title as product name,
/// developer as publisher, the real executable path.
pub open spec fn game_patch(g: HeroicGame) -> IdentityView {
    IdentityView {
        product_name: Some(g.title@),
        publisher: text_view(g.developer),
        executable_path: real_executable(g),
        ..no_identity()
    }
}

/// The patch for an application of `launcher_type` keyed `launcher_id`
/// (executable `executable_path`) from the installed `games`: a Heroic
/// application matches by app name, a native one by install path, any
/// other launcher not at all.
pub fn heroic_patch(
    games: &[HeroicGame],
    launcher_type: LauncherType,
    launcher_id: &str,
    executable_path: Option<&str>,
) -> (r: Option<IdentityUpdate>)
    ensures
        games@.len() == 0 ==> r is None,
        games@.len() > 0 ==> match launcher_type {
            LauncherType::Heroic => {
                let i = first_with_app_name(games@, launcher_id@);
                match r {
                    Some(p) => 0 <= i < games@.len() && p@ == game_patch(games@[i]),
                    None => i >= games@.len(),
                }
            },
            LauncherType::Native => match executable_path {
                Some(exe) => {
                    let i = longest_install_prefix(games@, exe@, games@.len() as int);
                    match r {
                        Some(p) => 0 <= i < games@.len() && p@ == game_patch(games@[i]),
                        None => i == -1,
                    }
                },
                None => r is None,
            },
            _ => r is None,
        },
{
    if games.len() == 0 {
        return None;
    }
    let matched = match launcher_type {
        LauncherType::Heroic => find_by_app_name(games, launcher_id),
        LauncherType::Native => match executable_path {
            Some(exe) => find_by_install_path(games, exe),
            None => None,
        },
        _ => None,
    };
    match matched {
        Some(g) => {
            let mut p = IdentityUpdate::default();
            p.product_name = Some(copy_string(&g.title));
            p.publisher = match &g.developer {
                Some(d) => Some(copy_string(d)),
                None => None,
            };
            p.executable_path = real_executable_path(g);
            Some(p)
        },
        None => None,
    }
}

} // verus!
