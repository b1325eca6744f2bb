//! Where the enrichment sources look.
//!
//! Every location is resolved once, at daemon start, from the home
//! directory and the XDG variables; each source then receives a path or
//! `None` and never reads the environment itself. Which of the candidate
//! locations exist is checked by the caller.

use vstd::prelude::*;
use crate::paths::{join, join_path, push_new_path, with_new_path};
use crate::text::{split_char, split_on};

verus! {

broadcast use vstd::string::group_string_axioms;

/// Paths consulted by the enrichment sources.
#[derive(Debug, Clone, Default)]
pub struct EnrichmentContext {
    /// Directories scanned for `.desktop` files, user-writable ones first.
    pub desktop_dirs: Vec<String>,
    /// The Steam data directory, if Steam is installed.
    pub steam_dir: Option<String>,
    /// Lutris's `pga.db`, if Lutris is installed.
    pub lutris_pga_db: Option<String>,
    /// Heroic's configuration directory, if Heroic is installed.
    pub heroic_config_dir: Option<String>,
}

/// `$XDG_DATA_HOME`, else `$HOME/.local/share`.
pub open spec fn data_home_of(home: Option<Seq<char>>, xdg_data_home: Option<Seq<char>>) -> Option<Seq<char>> {
    match xdg_data_home {
        Some(x) => Some(x),
        None => match home {
            Some(h) => Some(join_path(h, ".local/share"@)),
            None => None,
        },
    }
}

/// The user's data directory.
pub fn data_home(home: Option<&str>, xdg_data_home: Option<&str>) -> (r: Option<String>)
    ensures
        match r {
            Some(d) => data_home_of(
                match home {
                    Some(h) => Some(h@),
                    None => None,
                },
                match xdg_data_home {
                    Some(x) => Some(x@),
                    None => None,
                },
            ) == Some(d@),
            None => home is None && xdg_data_home is None,
        },
{
    match xdg_data_home {
        Some(x) => Some(x.to_owned()),
        None => match home {
            Some(h) => Some(join(h, ".local/share")),
            None => None,
        },
    }
}

/// The candidate locations of the Steam data directory, Heroic's
/// configuration and Lutris's database, from the data home and the home
/// directory.
pub fn candidate_locations(data_home: Option<&str>, home: Option<&str>) -> (r: (Option<String>, Option<String>, Option<String>))
    ensures
        match data_home {
            Some(d) => r.0 is Some && r.0->0@ == join_path(d@, "Steam"@) && r.2 is Some && r.2->0@
                == join_path(d@, "lutris/pga.db"@),
            None => r.0 is None && r.2 is None,
        },
        match home {
            Some(h) => r.1 is Some && r.1->0@ == join_path(h@, ".config/heroic"@),
            None => r.1 is None,
        },
{
    let steam = match data_home {
        Some(d) => Some(join(d, "Steam")),
        None => None,
    };
    let heroic = match home {
        Some(h) => Some(join(h, ".config/heroic")),
        None => None,
    };
    let lutris = match data_home {
        Some(d) => Some(join(d, "lutris/pga.db")),
        None => None,
    };
    (steam, heroic, lutris)
}

/// `dirs` with each of `candidates` appended in order, unless the same
/// path is already there.
pub open spec fn with_new_paths(dirs: Seq<Seq<char>>, candidates: Seq<Seq<char>>) -> Seq<Seq<char>>
    decreases candidates.len(),
{
    if candidates.len() == 0 {
        dirs
    } else {
        with_new_path(with_new_paths(dirs, candidates.drop_last()), candidates.last())
    }
}

/// The system-wide Flatpak exports.
pub open spec fn flatpak_system_dir() -> Seq<char> {
    "/var/lib/flatpak/exports/share/applications"@
}

/// The desktop-file directories: `<data home>/applications` and the user
/// Flatpak exports first, then `<dir>/applications` for each entry of
/// `XDG_DATA_DIRS`, the system Flatpak exports, the conventional
/// `/usr/local/share/applications` and `/usr/share/applications`, and
/// `~/Desktop`; a directory already listed is not listed again.
pub open spec fn desktop_dirs_of(
    home: Option<Seq<char>>,
    data_home: Option<Seq<char>>,
    data_dirs: Option<Seq<char>>,
) -> Seq<Seq<char>> {
    let first: Seq<Seq<char>> = match data_home {
        Some(x) => seq![
            join_path(x, "applications"@),
            join_path(x, "flatpak/exports/share/applications"@),
        ],
        None => seq![],
    };
    let from_env: Seq<Seq<char>> = match data_dirs {
        Some(v) => split_on(v, ':').map_values(|p: Seq<char>| join_path(p, "applications"@)),
        None => seq![],
    };
    let fixed: Seq<Seq<char>> = seq![
        flatpak_system_dir(),
        "/usr/local/share/applications"@,
        "/usr/share/applications"@,
    ];
    let desktop: Seq<Seq<char>> = match home {
        Some(h) => seq![join_path(h, "Desktop"@)],
        None => seq![],
    };
    with_new_paths(first, from_env + fixed + desktop)
}

/// The view of an optional `&str`.
pub open spec fn opt_view(s: Option<&str>) -> Option<Seq<char>> {
    match s {
        Some(v) => Some(v@),
        None => None,
    }
}

/// The desktop-file directories for the home directory, the data home
/// and the value of `XDG_DATA_DIRS`.
pub fn detect_desktop_dirs(home: Option<&str>, data_home: Option<&str>, xdg_data_dirs: Option<&str>) -> (r: Vec<String>)
    ensures
        r@.map_values(|s: String| s@) == desktop_dirs_of(
            opt_view(home),
            opt_view(data_home),
            opt_view(xdg_data_dirs),
        ),
{
    let mut dirs: Vec<String> = Vec::new();
    if let Some(x) = data_home {
        dirs.push(join(x, "applications"));
        dirs.push(join(x, "flatpak/exports/share/applications"));
        assert(dirs@.map_values(|s: String| s@) =~= seq![
            join_path(x@, "applications"@),
            join_path(x@, "flatpak/exports/share/applications"@),
        ]);
    } else {
        assert(dirs@.map_values(|s: String| s@) =~= Seq::<Seq<char>>::empty());
    }
    let mut candidates: Vec<String> = Vec::new();
    if let Some(v) = xdg_data_dirs {
        let parts = split_char(v, ':');
        let ghost pv = parts@.map_values(|x: String| x@);
        let mut i: usize = 0;
        while i < parts.len()
            invariant
                i <= parts@.len(),
                pv == parts@.map_values(|x: String| x@),
                candidates@.map_values(|s: String| s@) == pv.take(i as int).map_values(
                    |p: Seq<char>| join_path(p, "applications"@),
                ),
            decreases parts.len() - i,
        {
            let ghost before = candidates@;
            assert(pv.take(i + 1) =~= pv.take(i as int).push(pv[i as int]));
            assert(pv[i as int] == parts@[i as int]@);
            let c = join(parts[i].as_str(), "applications");
            candidates.push(c);
            assert(candidates@.map_values(|s: String| s@) =~= before.map_values(|s: String| s@).push(c@));
            assert(candidates@.map_values(|s: String| s@) =~= pv.take(i + 1).map_values(
                |p: Seq<char>| join_path(p, "applications"@),
            ));
            i += 1;
        }
        assert(pv.take(i as int) =~= pv);
    } else {
        assert(candidates@.map_values(|s: String| s@) =~= Seq::<Seq<char>>::empty());
    }
    let ghost from_env = candidates@.map_values(|s: String| s@);
    candidates.push("/var/lib/flatpak/exports/share/applications".to_owned());
    candidates.push("/usr/local/share/applications".to_owned());
    candidates.push("/usr/share/applications".to_owned());
    if let Some(h) = home {
        candidates.push(join(h, "Desktop"));
    }
    let ghost cv = candidates@.map_values(|s: String| s@);
    let ghost first = dirs@.map_values(|s: String| s@);
    proof {
        let fixed: Seq<Seq<char>> = seq![
            flatpak_system_dir(),
            "/usr/local/share/applications"@,
            "/usr/share/applications"@,
        ];
        let desktop: Seq<Seq<char>> = match home {
            Some(h) => seq![join_path(h@, "Desktop"@)],
            None => seq![],
        };
        assert(cv =~= from_env + fixed + desktop);
    }
    let mut i: usize = 0;
    while i < candidates.len()
        invariant
            i <= candidates@.len(),
            cv == candidates@.map_values(|s: String| s@),
            dirs@.map_values(|s: String| s@) == with_new_paths(first, cv.take(i as int)),
        decreases candidates.len() - i,
    {
        assert(cv.take(i + 1).drop_last() =~= cv.take(i as int));
        let c = candidates[i].clone();
        push_new_path(&mut dirs, c);
        i += 1;
    }
    assert(cv.take(i as int) =~= cv);
    dirs
}

} // verus!
