//! The Steam source.
//!
//! At start, every `steamapps/appmanifest_*.acf` of every Steam library
//! is scanned: a manifest whose `StateFlags` has the `App Running` bit is
//! a running game, unless no live process carries its appid (a stale bit
//! left by a crash). Then `logs/content_log.txt` is tailed: a line
//! `[...] AppID <id> state changed : <flags>` whose flags name
//! `App Running` starts that appid, one without it stops a running one.
//!
//! This module holds the decisions; the runner reads the files, follows
//! the log and sends the events.

use vstd::prelude::*;
use crate::paths::{join, join_path, push_new_path, with_new_path};
use crate::proc::environ::Environ;
use crate::text::{
    all_digits, all_digits_chars, chars_eq, chars_of, decode_utf8, find_char, find_sub, first_index_of,
    first_occurrence, lemma_first_index_of_unique, occurs_at, is_digit, lemma_first_occurrence_from, is_prefix_of, is_suffix_of, is_ws, last_index_of,
    lemma_last_index_of, starts_with, ends_with, string_of_chars, string_of_range, trim, trim_start,
    trim_chars,
};
use crate::vdf::{parse_top_level_string, parse_top_level_u64, top_level_string, top_level_u64};

verus! {

broadcast use vstd::string::group_string_axioms;

/// The `App Running` bit of an appmanifest's `StateFlags`.
pub const APP_RUNNING_FLAG: u64 = 64;

/// Fallback poll cadence of the log, in seconds, in case the file
/// watcher misses an event.
pub const POLL_INTERVAL_SECONDS: u64 = 5;

/// Most bytes of the content log read in one pass; the rest waits for
/// the next pass.
pub const MAX_DRAIN_BYTES: u64 = 4194304;

// ---------------------------------------------------------------------
// A set of appids.
// ---------------------------------------------------------------------

/// A set of Steam appids.
#[derive(Debug)]
pub struct AppIdSet {
    ids: Vec<String>,
}

impl AppIdSet {
    #[verifier::type_invariant]
    spec fn distinct(self) -> bool {
        forall|i: int, j: int|
            0 <= i < j < self.ids@.len() ==> (#[trigger] self.ids@[i])@ != (#[trigger] self.ids@[j])@
    }
}

impl View for AppIdSet {
    type V = Set<Seq<char>>;

    closed spec fn view(&self) -> Set<Seq<char>> {
        Set::new(|x: Seq<char>| exists|i: int| 0 <= i < self.ids@.len() && (#[trigger] self.ids@[i])@ == x)
    }
}

impl AppIdSet {
    /// The empty set.
    pub fn new() -> (r: Self)
        ensures
            r@ == Set::<Seq<char>>::empty(),
    {
        let r = AppIdSet { ids: Vec::new() };
        assert(r@ =~= Set::<Seq<char>>::empty());
        r
    }

    /// Position of `id`, or the length.
    fn position(&self, id: &str) -> (r: usize)
        ensures
            r <= self.ids@.len(),
            r < self.ids@.len() ==> self.ids@[r as int]@ == id@,
            r == self.ids@.len() ==> !self@.contains(id@),
    {
        let target = chars_of(id);
        let mut i: usize = 0;
        while i < self.ids.len()
            invariant
                i <= self.ids@.len(),
                target@ == id@,
                forall|j: int| 0 <= j < i ==> self.ids@[j]@ != id@,
            decreases self.ids.len() - i,
        {
            let c = chars_of(self.ids[i].as_str());
            if chars_eq(c.as_slice(), target.as_slice()) {
                return i;
            }
            i += 1;
        }
        i
    }

    /// Whether `id` is in the set.
    pub fn contains(&self, id: &str) -> (r: bool)
        ensures
            r == self@.contains(id@),
    {
        let p = self.position(id);
        if p < self.ids.len() {
            assert(self@.contains(id@)) by {
                assert(self.ids@[p as int]@ == id@);
            }
            true
        } else {
            false
        }
    }

    /// Add `id`; `true` when it was not there before.
    pub fn insert(&mut self, id: &str) -> (r: bool)
        ensures
            r == !old(self)@.contains(id@),
            final(self)@ == old(self)@.insert(id@),
    {
        proof {
            use_type_invariant(&*self);
        }
        if self.contains(id) {
            assert(self@.insert(id@) =~= self@);
            return false;
        }
        let ghost old_ids = self.ids@;
        let owned = id.to_owned();
        let mut ids: Vec<String> = Vec::new();
        std::mem::swap(&mut ids, &mut self.ids);
        ids.push(owned);
        assert forall|i: int, j: int| 0 <= i < j < ids@.len() implies (#[trigger] ids@[i])@
            != (#[trigger] ids@[j])@ by {
            if j == old_ids.len() {
                assert(old(self)@.contains(old_ids[i]@));
            }
        }
        self.ids = ids;
        assert(self.ids@ == old_ids.push(owned));
        assert(self@ =~= old(self)@.insert(id@)) by {
            assert forall|x: Seq<char>| self@.contains(x) implies old(self)@.insert(id@).contains(
                x,
            ) by {
                let i = choose|i: int| 0 <= i < self.ids@.len() && (#[trigger] self.ids@[i])@ == x;
                if i < old_ids.len() {
                    assert(old_ids[i] == self.ids@[i]);
                }
            }
            assert forall|x: Seq<char>| old(self)@.insert(id@).contains(x) implies self@.contains(
                x,
            ) by {
                if x == id@ {
                    assert(self.ids@[old_ids.len() as int]@ == x);
                } else {
                    let i = choose|i: int| 0 <= i < old_ids.len() && (#[trigger] old_ids[i])@ == x;
                    assert(self.ids@[i] == old_ids[i]);
                }
            }
        }
        true
    }

    /// Remove `id`; `true` when it was there.
    pub fn remove(&mut self, id: &str) -> (r: bool)
        ensures
            r == old(self)@.contains(id@),
            final(self)@ == old(self)@.remove(id@),
    {
        proof {
            use_type_invariant(&*self);
        }
        let p = self.position(id);
        if p == self.ids.len() {
            assert(self@.remove(id@) =~= self@);
            return false;
        }
        let ghost old_ids = self.ids@;
        assert(old(self)@.contains(id@)) by {
            assert(old_ids[p as int]@ == id@);
        }
        let mut ids: Vec<String> = Vec::new();
        std::mem::swap(&mut ids, &mut self.ids);
        ids.remove(p);
        assert forall|i: int, j: int| 0 <= i < j < ids@.len() implies (#[trigger] ids@[i])@
            != (#[trigger] ids@[j])@ by {
            let oi = if i < p { i } else { i + 1 };
            let oj = if j < p { j } else { j + 1 };
            assert(ids@[i] == old_ids[oi]);
            assert(ids@[j] == old_ids[oj]);
        }
        self.ids = ids;
        assert(self.ids@ == old_ids.remove(p as int));
        assert(self@ =~= old(self)@.remove(id@)) by {
            assert forall|x: Seq<char>| self@.contains(x) implies old(self)@.remove(id@).contains(
                x,
            ) by {
                let i = choose|i: int| 0 <= i < self.ids@.len() && (#[trigger] self.ids@[i])@ == x;
                if i < p {
                    assert(self.ids@[i] == old_ids[i]);
                    assert(old_ids[i]@ != old_ids[p as int]@);
                } else {
                    assert(self.ids@[i] == old_ids[i + 1]);
                    assert(old_ids[p as int]@ != old_ids[i + 1]@);
                }
            }
            assert forall|x: Seq<char>| old(self)@.remove(id@).contains(x) implies self@.contains(
                x,
            ) by {
                let i = choose|i: int| 0 <= i < old_ids.len() && (#[trigger] old_ids[i])@ == x;
                assert(i != p);
                if i < p {
                    assert(self.ids@[i] == old_ids[i]);
                } else {
                    assert(self.ids@[i - 1] == old_ids[i]);
                }
            }
        }
        true
    }
}

// ---------------------------------------------------------------------
// Content-log lines.
// ---------------------------------------------------------------------

/// `s` without its trailing `'\n'` characters (`trim_end_matches('\n')`).
pub open spec fn strip_newlines(s: Seq<char>) -> Seq<char>
    decreases s.len(),
{
    if s.len() > 0 && s.last() == '\n' {
        strip_newlines(s.drop_last())
    } else {
        s
    }
}

/// Comma-separated fields read so far, and the field being read.
pub open spec fn field_scan(s: Seq<char>) -> (Seq<Seq<char>>, Seq<char>)
    decreases s.len(),
{
    if s.len() == 0 {
        (seq![], seq![])
    } else {
        let (done, cur) = field_scan(s.drop_last());
        if s.last() == ',' {
            (done.push(cur), seq![])
        } else {
            (done, cur.push(s.last()))
        }
    }
}

/// The comma-separated fields of `s` (`str::split(',')`).
pub open spec fn comma_fields(s: Seq<char>) -> Seq<Seq<char>> {
    field_scan(s).0.push(field_scan(s).1)
}

/// Some field of `flags`, trimmed, is `App Running`.
pub open spec fn names_app_running(flags: Seq<char>) -> bool {
    exists|i: int|
        0 <= i < comma_fields(strip_newlines(flags)).len() && trim(
            #[trigger] comma_fields(strip_newlines(flags))[i],
        ) == "App Running"@
}

/// A content-log state-change line, read: the appid and whether the new
/// flags name `App Running`. Other lines read as `None`.
pub open spec fn state_change(line: Seq<char>) -> Option<(Seq<char>, bool)> {
    let marker = "] AppID "@;
    let m = first_occurrence(line, marker);
    if m < 0 {
        None
    } else {
        let rest = line.skip(m + marker.len());
        let sp = first_index_of(rest, ' ');
        if sp >= rest.len() {
            None
        } else {
            let appid = rest.take(sp);
            let tail = rest.skip(sp + 1);
            let prefix = "state changed : "@;
            if appid.len() == 0 || !all_digits(appid) || !is_prefix_of(prefix, tail) {
                None
            } else {
                Some((appid, names_app_running(tail.skip(prefix.len() as int))))
            }
        }
    }
}

/// `s` with its trailing newlines removed.
fn strip_newlines_chars(s: &[char]) -> (r: usize)
    ensures
        r <= s@.len(),
        s@.take(r as int) == strip_newlines(s@),
{
    let mut n: usize = s.len();
    assert(s@.take(n as int) =~= s@);
    while n > 0 && s[n - 1] == '\n'
        invariant
            n <= s@.len(),
            strip_newlines(s@) == strip_newlines(s@.take(n as int)),
        decreases n,
    {
        assert(s@.take(n as int).drop_last() =~= s@.take(n - 1));
        n -= 1;
    }
    n
}

/// Whether any comma-separated field of `s`, trimmed, is `App Running`.
fn any_field_app_running(s: &[char]) -> (r: bool)
    ensures
        r == (exists|i: int|
            0 <= i < comma_fields(s@).len() && trim(#[trigger] comma_fields(s@)[i])
                == "App Running"@),
{
    let target = chars_of("App Running");
    let mut found = false;
    let mut cur: Vec<char> = Vec::new();
    let mut i: usize = 0;
    let ghost mut done: Seq<Seq<char>> = seq![];
    while i < s.len()
        invariant
            i <= s@.len(),
            target@ == "App Running"@,
            field_scan(s@.take(i as int)) == (done, cur@),
            found == (exists|j: int| 0 <= j < done.len() && trim(#[trigger] done[j]) == "App Running"@),
        decreases s.len() - i,
    {
        proof {
            assert(s@.take(i + 1).drop_last() =~= s@.take(i as int));
        }
        if s[i] == ',' {
            let t = trim_chars(cur.as_slice());
            let hit = chars_eq(t.as_slice(), target.as_slice());
            proof {
                let nd = done.push(cur@);
                if hit {
                    assert(trim(nd[done.len() as int]) == "App Running"@);
                }
                if found {
                    let j = choose|j: int| 0 <= j < done.len() && trim(#[trigger] done[j]) == "App Running"@;
                    assert(nd[j] == done[j]);
                }
                if !found && !hit {
                    assert forall|j: int| 0 <= j < nd.len() implies trim(#[trigger] nd[j]) != "App Running"@ by {
                        if j < done.len() {
                            assert(nd[j] == done[j]);
                        }
                    }
                }
                done = nd;
            }
            found = found || hit;
            cur = Vec::new();
        } else {
            cur.push(s[i]);
        }
        i += 1;
    }
    assert(s@.take(i as int) =~= s@);
    let t = trim_chars(cur.as_slice());
    let hit = chars_eq(t.as_slice(), target.as_slice());
    proof {
        let fs = done.push(cur@);
        assert(comma_fields(s@) == fs);
        if hit {
            assert(trim(fs[done.len() as int]) == "App Running"@);
        }
        if found {
            let j = choose|j: int| 0 <= j < done.len() && trim(#[trigger] done[j]) == "App Running"@;
            assert(fs[j] == done[j]);
        }
        if !found && !hit {
            assert forall|j: int| 0 <= j < fs.len() implies trim(#[trigger] fs[j]) != "App Running"@ by {
                if j < done.len() {
                    assert(fs[j] == done[j]);
                }
            }
        }
    }
    found || hit
}

/// Read a content-log line `[...] AppID <digits> state changed : <flags>`:
/// the appid, and whether the flags name `App Running`. Unrelated lines
/// give `None`.
pub fn parse_state_change(line: &str) -> (r: Option<(String, bool)>)
    ensures
        match r {
            Some((appid, running)) => state_change(line@) == Some((appid@, running)),
            None => state_change(line@) is None,
        },
{
    let cs = chars_of(line);
    let marker = chars_of("] AppID ");
    let m = match find_sub(cs.as_slice(), marker.as_slice()) {
        Some(m) => m,
        None => return None,
    };
    proof {
        lemma_first_occurrence_from(cs@, marker@, 0);
        assert(m as int == first_occurrence(cs@, marker@));
        assert(occurs_at(cs@, marker@, m as int));
    }
    let cl = cs.len();
    let ml = marker.len();
    assert(m + ml <= cl);
    let rest_start = m + ml;
    let ghost rest = cs@.skip(rest_start as int);
    let rest_v = string_of_range(cs.as_slice(), rest_start, cs.len());
    let rc = chars_of(rest_v.as_str());
    assert(rc@ =~= rest);
    let sp = find_char(rc.as_slice(), ' ');
    if sp >= rc.len() {
        return None;
    }
    let appid = string_of_range(rc.as_slice(), 0, sp);
    let tail = string_of_range(rc.as_slice(), sp + 1, rc.len());
    assert(appid@ =~= rest.take(sp as int));
    assert(tail@ =~= rest.skip(sp + 1));
    if sp == 0 {
        return None;
    }
    let ac = chars_of(appid.as_str());
    if !all_digits_chars(ac.as_slice()) {
        return None;
    }
    let tc = chars_of(tail.as_str());
    let prefix = chars_of("state changed : ");
    if !starts_with(tc.as_slice(), prefix.as_slice()) {
        return None;
    }
    let flags = slice_from(tc.as_slice(), prefix.len());
    let n = strip_newlines_chars(flags.as_slice());
    let kept = slice_from_to(flags.as_slice(), n);
    let running = any_field_app_running(kept.as_slice());
    proof {
        assert(flags@ =~= tail@.skip(prefix@.len() as int));
        assert(kept@ == strip_newlines(flags@));
        let marker_s = "] AppID "@;
        assert(first_occurrence(line@, marker_s) == m);
        assert(line@.skip(m + marker_s.len()) == rest);
        assert(first_index_of(rest, ' ') == sp);
        assert(rest.take(sp as int) == appid@);
        assert(rest.skip(sp + 1) == tail@);
        assert(names_app_running(tail@.skip("state changed : "@.len() as int)) == running);
    }
    Some((appid, running))
}

/// `s[from..]`.
fn slice_from(s: &[char], from: usize) -> (r: Vec<char>)
    requires
        from <= s.len(),
    ensures
        r@ == s@.skip(from as int),
{
    let mut out: Vec<char> = Vec::new();
    let mut i = from;
    while i < s.len()
        invariant
            from <= i <= s.len(),
            out@ == s@.subrange(from as int, i as int),
        decreases s.len() - i,
    {
        out.push(s[i]);
        i += 1;
        assert(out@ =~= s@.subrange(from as int, i as int));
    }
    assert(s@.subrange(from as int, s.len() as int) =~= s@.skip(from as int));
    out
}

/// `s[..to]`.
fn slice_from_to(s: &[char], to: usize) -> (r: Vec<char>)
    requires
        to <= s.len(),
    ensures
        r@ == s@.take(to as int),
{
    let mut out: Vec<char> = Vec::new();
    let mut i: usize = 0;
    while i < to
        invariant
            i <= to <= s.len(),
            out@ == s@.take(i as int),
        decreases to - i,
    {
        out.push(s[i]);
        i += 1;
        assert(out@ =~= s@.take(i as int));
    }
    out
}

// ---------------------------------------------------------------------
// The Steam data directory and its libraries.
// ---------------------------------------------------------------------

/// The Steam source, pointed at a Steam data directory.
#[derive(Debug)]
pub struct SteamSource {
    steam_dir: String,
}

impl SteamSource {
    /// A source for the Steam data directory `steam_dir`.
    pub fn new(steam_dir: String) -> (r: Self)
        ensures
            r.dir()@ == steam_dir@,
    {
        SteamSource { steam_dir }
    }

    /// The Steam data directory.
    pub closed spec fn dir(&self) -> String {
        self.steam_dir
    }

    /// The Steam data directory.
    pub fn steam_dir(&self) -> (r: &String)
        ensures
            r@ == self.dir()@,
    {
        &self.steam_dir
    }

    /// `<steam_dir>/logs/content_log.txt`.
    pub fn content_log_path(&self) -> (r: String)
        ensures
            r@ == join_path(self.dir()@, "logs/content_log.txt"@),
    {
        join(self.steam_dir.as_str(), "logs/content_log.txt")
    }

    /// `<steam_dir>/steamapps`, the primary library.
    pub fn steamapps_dir(&self) -> (r: String)
        ensures
            r@ == join_path(self.dir()@, "steamapps"@),
    {
        join(self.steam_dir.as_str(), "steamapps")
    }
}

/// The `steamapps` directories of every library: the primary one first,
/// then `<path>/steamapps` for each library path in index order, each
/// left out when the same path is already listed.
pub open spec fn library_dirs_of(primary: Seq<char>, paths: Seq<Seq<char>>) -> Seq<Seq<char>>
    decreases paths.len(),
{
    if paths.len() == 0 {
        seq![primary]
    } else {
        with_new_path(library_dirs_of(primary, paths.drop_last()), join_path(paths.last(), "steamapps"@))
    }
}

/// The `steamapps` directories to scan, from the primary directory and
/// the library paths listed in `libraryfolders.vdf`.
pub fn library_steamapps_dirs(primary: &str, library_paths: &Vec<String>) -> (r: Vec<String>)
    ensures
        r@.map_values(|s: String| s@) == library_dirs_of(
            primary@,
            library_paths@.map_values(|s: String| s@),
        ),
{
    let ghost paths = library_paths@.map_values(|s: String| s@);
    let mut dirs: Vec<String> = Vec::new();
    dirs.push(primary.to_owned());
    assert(dirs@.map_values(|s: String| s@) =~= library_dirs_of(primary@, paths.take(0)));
    let mut i: usize = 0;
    while i < library_paths.len()
        invariant
            i <= library_paths@.len(),
            paths == library_paths@.map_values(|s: String| s@),
            dirs@.map_values(|s: String| s@) == library_dirs_of(primary@, paths.take(i as int)),
        decreases library_paths.len() - i,
    {
        let d = join(library_paths[i].as_str(), "steamapps");
        assert(paths.take(i + 1).drop_last() =~= paths.take(i as int));
        assert(paths.take(i + 1).last() == library_paths@[i as int]@);
        push_new_path(&mut dirs, d);
        i += 1;
    }
    assert(paths.take(i as int) =~= paths);
    dirs
}

// ---------------------------------------------------------------------
// Appmanifests.
// ---------------------------------------------------------------------

/// The appid named by a file name `appmanifest_<digits>.acf`.
pub open spec fn manifest_appid(file_name: Seq<char>) -> Option<Seq<char>> {
    let pre = "appmanifest_"@;
    let suf = ".acf"@;
    if is_prefix_of(pre, file_name) && is_suffix_of(suf, file_name.skip(pre.len() as int)) {
        let id = file_name.subrange(pre.len() as int, file_name.len() - suf.len());
        if id.len() > 0 && all_digits(id) {
            Some(id)
        } else {
            None
        }
    } else {
        None
    }
}

/// The appid of an appmanifest file name, if it is one.
pub fn appid_from_manifest_name(file_name: &str) -> (r: Option<String>)
    ensures
        match r {
            Some(id) => manifest_appid(file_name@) == Some(id@),
            None => manifest_appid(file_name@) is None,
        },
{
    let cs = chars_of(file_name);
    let pre = chars_of("appmanifest_");
    let suf = chars_of(".acf");
    if !starts_with(cs.as_slice(), pre.as_slice()) {
        return None;
    }
    let rest = slice_from(cs.as_slice(), pre.len());
    if !ends_with(rest.as_slice(), suf.as_slice()) {
        return None;
    }
    let id_end = cs.len() - suf.len();
    let id = string_of_range(cs.as_slice(), pre.len(), id_end);
    let ic = chars_of(id.as_str());
    if ic.len() == 0 || !all_digits_chars(ic.as_slice()) {
        return None;
    }
    Some(id)
}

/// The manifest's `StateFlags` has the `App Running` bit (a missing or
/// unreadable value counts as no flags).
pub open spec fn manifest_running(content: Seq<char>) -> bool {
    let flags: u64 = match top_level_u64(content, "StateFlags"@) {
        Some(f) => f,
        None => 0,
    };
    flags & APP_RUNNING_FLAG != 0
}

/// Whether the appmanifest `content` says the game is running.
pub fn manifest_says_running(content: &str) -> (r: bool)
    ensures
        r == manifest_running(content@),
{
    let flags: u64 = match parse_top_level_u64(content, "StateFlags") {
        Some(f) => f,
        None => 0,
    };
    flags & APP_RUNNING_FLAG != 0
}

/// `AppID <appid>`, the name of a game whose manifest has none.
pub open spec fn placeholder_name(appid: Seq<char>) -> Seq<char> {
    "AppID "@ + appid
}

/// `AppID <appid>`.
pub fn placeholder_name_of(appid: &str) -> (r: String)
    ensures
        r@ == placeholder_name(appid@),
{
    let mut out = chars_of("AppID ");
    let a = chars_of(appid);
    let ghost start = out@;
    let mut i: usize = 0;
    while i < a.len()
        invariant
            i <= a@.len(),
            out@ == start + a@.take(i as int),
        decreases a.len() - i,
    {
        out.push(a[i]);
        i += 1;
        assert(out@ =~= start + a@.take(i as int));
    }
    assert(a@.take(i as int) =~= a@);
    string_of_chars(&out)
}

/// The display name of a game from its manifest: its top-level `name`,
/// else `AppID <appid>`.
pub open spec fn manifest_display_name(content: Seq<char>, appid: Seq<char>) -> Seq<char> {
    match top_level_string(content, "name"@) {
        Some(n) => n,
        None => placeholder_name(appid),
    }
}

/// The display name of `appid` from its manifest `content`.
pub fn display_name_from_manifest(content: &str, appid: &str) -> (r: String)
    ensures
        r@ == manifest_display_name(content@, appid@),
{
    match parse_top_level_string(content, "name") {
        Some(n) => n,
        None => placeholder_name_of(appid),
    }
}

/// What the cold-start scan does with the manifest of `appid`: report the
/// game as started, under the returned display name, when the manifest
/// says it runs, a live process carries the appid (or liveness could not
/// be checked), and the scan has not reported it yet.
pub open spec fn cold_start_admits(
    appid: Seq<char>,
    content: Seq<char>,
    live: Option<Set<Seq<char>>>,
    running: Set<Seq<char>>,
) -> bool {
    &&& manifest_running(content)
    &&& (live matches Some(l) ==> l.contains(appid))
    &&& !running.contains(appid)
}

/// The cold-start decision for one manifest. On `Some`, `appid` has been
/// added to `running` and the game is to be reported started under the
/// returned name; on `None` nothing changed.
pub fn cold_start_admit(
    appid: &str,
    content: &str,
    live: Option<&AppIdSet>,
    running: &mut AppIdSet,
) -> (r: Option<String>)
    ensures
        cold_start_admits(
            appid@,
            content@,
            match live {
                Some(l) => Some(l@),
                None => None,
            },
            old(running)@,
        ) ==> {
            &&& r matches Some(n) && n@ == manifest_display_name(content@, appid@)
            &&& final(running)@ == old(running)@.insert(appid@)
        },
        !cold_start_admits(
            appid@,
            content@,
            match live {
                Some(l) => Some(l@),
                None => None,
            },
            old(running)@,
        ) ==> r is None && final(running)@ == old(running)@,
{
    if !manifest_says_running(content) {
        return None;
    }
    if let Some(l) = live {
        if !l.contains(appid) {
            return None;
        }
    }
    if !running.insert(appid) {
        return None;
    }
    Some(display_name_from_manifest(content, appid))
}

// ---------------------------------------------------------------------
// Liveness of Steam games.
// ---------------------------------------------------------------------

/// The appid variables Steam and Proton put into a game's environment.
pub open spec fn appid_vars() -> Seq<Seq<char>> {
    seq!["SteamAppId"@, "STEAM_COMPAT_APP_ID"@]
}

/// A real appid: nonempty digits, not the `0` of non-Steam shortcuts.
pub open spec fn real_appid(v: Seq<char>) -> bool {
    v != "0"@ && v.len() > 0 && all_digits(v)
}

/// The real appids `env` carries.
pub open spec fn live_appids_of(env: Map<Seq<char>, Seq<char>>) -> Set<Seq<char>> {
    Set::new(
        |v: Seq<char>|
            exists|i: int|
                0 <= i < appid_vars().len() && env.contains_key(#[trigger] appid_vars()[i])
                    && env[appid_vars()[i]] == v && real_appid(v),
    )
}

/// Whether `v` is a real appid.
fn is_real_appid(v: &String) -> (r: bool)
    ensures
        r == real_appid(v@),
{
    let c = chars_of(v.as_str());
    let zero = chars_of("0");
    !chars_eq(c.as_slice(), zero.as_slice()) && c.len() > 0 && all_digits_chars(c.as_slice())
}

/// Add to `live` the real appids of a process environment.
pub fn collect_live_appids(env: &Environ, live: &mut AppIdSet)
    ensures
        final(live)@ == old(live)@.union(live_appids_of(env@)),
{
    let a = env.get("SteamAppId");
    if let Some(v) = a {
        if is_real_appid(v) {
            live.insert(v.as_str());
        }
    }
    let b = env.get("STEAM_COMPAT_APP_ID");
    if let Some(v) = b {
        if is_real_appid(v) {
            live.insert(v.as_str());
        }
    }
    proof {
        let l = live_appids_of(env@);
        assert(final(live)@ =~= old(live)@.union(l)) by {
            assert forall|x: Seq<char>| l.contains(x) implies (env@.contains_key("SteamAppId"@)
                && env@["SteamAppId"@] == x && real_appid(x)) || (env@.contains_key(
                "STEAM_COMPAT_APP_ID"@,
            ) && env@["STEAM_COMPAT_APP_ID"@] == x && real_appid(x)) by {
                let i = choose|i: int|
                    0 <= i < appid_vars().len() && env@.contains_key(#[trigger] appid_vars()[i])
                        && env@[appid_vars()[i]] == x && real_appid(x);
                assert(i == 0 || i == 1);
            }
            assert forall|x: Seq<char>|
                (env@.contains_key("SteamAppId"@) && env@["SteamAppId"@] == x && real_appid(x))
                    implies l.contains(x) by {
                assert(appid_vars()[0] == "SteamAppId"@);
            }
            assert forall|x: Seq<char>|
                (env@.contains_key("STEAM_COMPAT_APP_ID"@) && env@["STEAM_COMPAT_APP_ID"@] == x
                    && real_appid(x)) implies l.contains(x) by {
                assert(appid_vars()[1] == "STEAM_COMPAT_APP_ID"@);
            }
        }
    }
}

// ---------------------------------------------------------------------
// Following the content log.
// ---------------------------------------------------------------------

/// Where a pass over the log starts: at the cursor, or at the top when
/// the file shrank below it (rotation or truncation).
pub open spec fn drain_start(len: u64, cursor: u64) -> u64 {
    if len < cursor {
        0
    } else {
        cursor
    }
}

/// What a pass reads, given the file length and the cursor: the start
/// and the number of bytes (at most [`MAX_DRAIN_BYTES`]; zero when there
/// is nothing new, and then the start is the new cursor).
pub fn plan_read(len: u64, cursor: u64) -> (r: (u64, u64))
    ensures
        r.0 == drain_start(len, cursor),
        r.1 == (if len - r.0 < MAX_DRAIN_BYTES {
            len - r.0
        } else {
            MAX_DRAIN_BYTES as int
        }),
{
    let start = if len < cursor {
        0
    } else {
        cursor
    };
    let available = len - start;
    let count = if available < MAX_DRAIN_BYTES {
        available
    } else {
        MAX_DRAIN_BYTES
    };
    (start, count)
}

/// A change of a game's running state read from the log.
#[derive(Debug, PartialEq, Eq)]
pub enum SteamChange {
    /// The game started.
    Started { appid: String },
    /// The game stopped.
    Stopped { appid: String },
}

/// The mathematical content of a [`SteamChange`].
pub enum ChangeView {
    Started(Seq<char>),
    Stopped(Seq<char>),
}

impl View for SteamChange {
    type V = ChangeView;

    open spec fn view(&self) -> ChangeView {
        match self {
            SteamChange::Started { appid } => ChangeView::Started(appid@),
            SteamChange::Stopped { appid } => ChangeView::Stopped(appid@),
        }
    }
}

/// Length of the complete lines of `buf`: up to and including its last
/// `'\n'`, zero when it has none.
pub open spec fn complete_len(buf: Seq<u8>) -> int {
    last_index_of(buf, 10u8) + 1
}

/// The effect of one log line on the running set: a state change into
/// `App Running` starts an appid that was not running, one out of it
/// stops an appid that was.
pub open spec fn line_effect(running: Set<Seq<char>>, line: Seq<char>) -> (Set<Seq<char>>, Seq<ChangeView>) {
    match state_change(line) {
        Some((appid, is_running)) => if is_running && !running.contains(appid) {
            (running.insert(appid), seq![ChangeView::Started(appid)])
        } else if !is_running && running.contains(appid) {
            (running.remove(appid), seq![ChangeView::Stopped(appid)])
        } else {
            (running, seq![])
        },
        None => (running, seq![]),
    }
}

/// Lines completed so far (each with its `'\n'`) and the line being read.
pub open spec fn line_scan(s: Seq<char>) -> (Seq<Seq<char>>, Seq<char>)
    decreases s.len(),
{
    if s.len() == 0 {
        (seq![], seq![])
    } else {
        let (done, cur) = line_scan(s.drop_last());
        let c = cur.push(s.last());
        if s.last() == '\n' {
            (done.push(c), seq![])
        } else {
            (done, c)
        }
    }
}

/// The lines of `s`, each with its terminator (`str::split_inclusive`).
pub open spec fn text_lines(s: Seq<char>) -> Seq<Seq<char>> {
    if line_scan(s).1.len() == 0 {
        line_scan(s).0
    } else {
        line_scan(s).0.push(line_scan(s).1)
    }
}

/// The running set and the changes after reading `lines` in order.
pub open spec fn apply_lines(running: Set<Seq<char>>, lines: Seq<Seq<char>>) -> (Set<Seq<char>>, Seq<ChangeView>)
    decreases lines.len(),
{
    if lines.len() == 0 {
        (running, seq![])
    } else {
        let (r0, e0) = apply_lines(running, lines.drop_last());
        let (r1, e1) = line_effect(r0, lines.last());
        (r1, e0 + e1)
    }
}

/// The views of a list of changes.
pub open spec fn changes_view(v: Seq<SteamChange>) -> Seq<ChangeView> {
    v.map_values(|c: SteamChange| c@)
}

/// Apply one line to `running`, appending its change to `changes`.
fn apply_line(line: &Vec<char>, running: &mut AppIdSet, changes: &mut Vec<SteamChange>)
    ensures
        (final(running)@, changes_view(final(changes)@)) == ({
            let (r, e) = line_effect(old(running)@, line@);
            (r, changes_view(old(changes)@) + e)
        }),
{
    let text = string_of_chars(line);
    let ghost before = changes@;
    match parse_state_change(text.as_str()) {
        Some((appid, is_running)) => {
            let was_running = running.contains(appid.as_str());
            if is_running && !was_running {
                running.insert(appid.as_str());
                changes.push(SteamChange::Started { appid });
                assert(changes_view(changes@) =~= changes_view(before) + seq![
                    changes@.last()@,
                ]);
            } else if !is_running && was_running {
                running.remove(appid.as_str());
                changes.push(SteamChange::Stopped { appid });
                assert(changes_view(changes@) =~= changes_view(before) + seq![
                    changes@.last()@,
                ]);
            } else {
                assert(changes_view(before) + seq![] =~= changes_view(before));
            }
        },
        None => {
            assert(changes_view(before) + seq![] =~= changes_view(before));
        },
    }
}

proof fn lemma_apply_lines_push(running: Set<Seq<char>>, lines: Seq<Seq<char>>, line: Seq<char>)
    ensures
        apply_lines(running, lines.push(line)) == ({
            let (r0, e0) = apply_lines(running, lines);
            let (r1, e1) = line_effect(r0, line);
            (r1, e0 + e1)
        }),
{
    assert(lines.push(line).drop_last() =~= lines);
}

/// Read the complete lines of a chunk of the log and apply them to the
/// running set. Returns how many bytes were consumed and the changes, in
/// order. Only bytes up to the last `'\n'` are consumed, so a partly
/// written line waits for the next pass; a chunk that is not valid UTF-8
/// is left whole for the next pass.
pub fn drain_chunk(buf: &[u8], running: &mut AppIdSet) -> (r: (usize, Vec<SteamChange>))
    ensures
        ({
            let n = complete_len(buf@);
            if n == 0 || !vstd::utf8::valid_utf8(buf@.take(n)) {
                &&& r.0 == 0
                &&& r.1@.len() == 0
                &&& final(running)@ == old(running)@
            } else {
                &&& r.0 == n
                &&& (final(running)@, changes_view(r.1@)) == apply_lines(
                    old(running)@,
                    text_lines(vstd::utf8::decode_utf8(buf@.take(n))),
                )
            }
        }),
{
    let mut n: usize = buf.len();
    while n > 0 && buf[n - 1] != 10u8
        invariant
            n <= buf@.len(),
            forall|j: int| n <= j < buf@.len() ==> buf@[j] != 10u8,
        decreases n,
    {
        n -= 1;
    }
    proof {
        lemma_last_index_of(buf@, 10u8);
        if n > 0 {
            crate::text::lemma_last_index_of_unique(buf@, 10u8, n - 1);
        } else {
            crate::text::lemma_last_index_of_unique(buf@, 10u8, -1);
        }
    }
    let mut changes: Vec<SteamChange> = Vec::new();
    if n == 0 {
        return (0, changes);
    }
    let head = take_bytes(buf, n);
    let text = match decode_utf8(head.as_slice()) {
        Some(t) => t,
        None => {
            return (0, changes);
        },
    };
    let cs = chars_of(text.as_str());
    let mut cur: Vec<char> = Vec::new();
    let mut i: usize = 0;
    let ghost start = old(running)@;
    let ghost mut done: Seq<Seq<char>> = seq![];
    assert(changes_view(changes@) =~= Seq::<ChangeView>::empty());
    while i < cs.len()
        invariant
            i <= cs@.len(),
            line_scan(cs@.take(i as int)) == (done, cur@),
            (running@, changes_view(changes@)) == apply_lines(start, done),
        decreases cs.len() - i,
    {
        proof {
            assert(cs@.take(i + 1).drop_last() =~= cs@.take(i as int));
        }
        let c = cs[i];
        cur.push(c);
        if c == '\n' {
            apply_line(&cur, running, &mut changes);
            proof {
                lemma_apply_lines_push(start, done, cur@);
                done = done.push(cur@);
            }
            cur = Vec::new();
        }
        i += 1;
    }
    assert(cs@.take(i as int) =~= cs@);
    if cur.len() > 0 {
        apply_line(&cur, running, &mut changes);
        proof {
            lemma_apply_lines_push(start, done, cur@);
        }
    }
    (n, changes)
}

/// `buf[..n]`.
fn take_bytes(buf: &[u8], n: usize) -> (r: Vec<u8>)
    requires
        n <= buf.len(),
    ensures
        r@ == buf@.take(n as int),
{
    let mut out: Vec<u8> = Vec::new();
    let mut i: usize = 0;
    while i < n
        invariant
            i <= n <= buf.len(),
            out@ == buf@.take(i as int),
        decreases n - i,
    {
        out.push(buf[i]);
        i += 1;
        assert(out@ =~= buf@.take(i as int));
    }
    out
}

// ---------------------------------------------------------------------
// Laws of the Steam source.
// ---------------------------------------------------------------------

/// Replay `changes` against the running set `running`: `None` when a
/// change is out of place (a start of a running appid, a stop of one not
/// running), else the running set afterwards.
pub open spec fn replay_changes(running: Set<Seq<char>>, changes: Seq<ChangeView>) -> Option<Set<Seq<char>>>
    decreases changes.len(),
{
    if changes.len() == 0 {
        Some(running)
    } else {
        match changes[0] {
            ChangeView::Started(a) => if running.contains(a) {
                None
            } else {
                replay_changes(running.insert(a), changes.drop_first())
            },
            ChangeView::Stopped(a) => if running.contains(a) {
                replay_changes(running.remove(a), changes.drop_first())
            } else {
                None
            },
        }
    }
}

proof fn lemma_replay_append(running: Set<Seq<char>>, a: Seq<ChangeView>, b: Seq<ChangeView>)
    requires
        replay_changes(running, a) is Some,
    ensures
        replay_changes(running, a + b) == replay_changes(replay_changes(running, a)->0, b),
    decreases a.len(),
{
    if a.len() > 0 {
        assert((a + b).drop_first() =~= a.drop_first() + b);
        assert((a + b)[0] == a[0]);
        match a[0] {
            ChangeView::Started(x) => {
                lemma_replay_append(running.insert(x), a.drop_first(), b);
            },
            ChangeView::Stopped(x) => {
                lemma_replay_append(running.remove(x), a.drop_first(), b);
            },
        }
    } else {
        assert(a + b =~= b);
    }
}

/// The changes read from the log are consistent with the running set: a
/// game is reported started only when it was not running and stopped only
/// when it was, and replaying the changes from the old running set gives
/// the new one. So no game is started twice or stopped without a start.
pub proof fn lemma_changes_replay(running: Set<Seq<char>>, lines: Seq<Seq<char>>)
    ensures
        replay_changes(running, apply_lines(running, lines).1) == Some(apply_lines(running, lines).0),
    decreases lines.len(),
{
    reveal_with_fuel(replay_changes, 2);
    if lines.len() > 0 {
        let (r0, e0) = apply_lines(running, lines.drop_last());
        lemma_changes_replay(running, lines.drop_last());
        let (r1, e1) = line_effect(r0, lines.last());
        lemma_replay_append(running, e0, e1);
        if e1.len() == 1 {
            assert(e1.drop_first() =~= Seq::<ChangeView>::empty());
        }
    }
}

/// The bytes a pass consumes end in a newline: a partly written line is
/// never consumed.
pub proof fn lemma_consumed_ends_with_newline(buf: Seq<u8>)
    ensures
        complete_len(buf) > 0 ==> buf[complete_len(buf) - 1] == 10u8,
        0 <= complete_len(buf) <= buf.len(),
{
    lemma_last_index_of(buf, 10u8);
}

/// A content-log line `<head>] AppID <digits> state changed : <flags>`,
/// whose head holds no `]`, reads as that appid, and as running exactly
/// when some comma-separated field of `<flags>` is `App Running`.
pub proof fn lemma_state_change_line(head: Seq<char>, id: Seq<char>, flags: Seq<char>)
    requires
        forall|i: int| 0 <= i < head.len() ==> head[i] != ']',
        id.len() > 0,
        all_digits(id),
    ensures
        state_change(head + "] AppID "@ + id + seq![' '] + "state changed : "@ + flags) == Some(
            (id, names_app_running(flags)),
        ),
{
    reveal_strlit("] AppID ");
    reveal_strlit("state changed : ");
    let marker = "] AppID "@;
    let prefix = "state changed : "@;
    let line = head + marker + id + seq![' '] + prefix + flags;
    let h = head.len() as int;
    assert(line.subrange(h, h + marker.len()) =~= marker);
    assert(occurs_at(line, marker, h));
    assert forall|j: int| 0 <= j < h implies !occurs_at(line, marker, j) by {
        assert(line[j] == head[j]);
        if occurs_at(line, marker, j) {
            assert(line.subrange(j, j + marker.len())[0] == line[j]);
        }
    }
    lemma_first_occurrence_from(line, marker, 0);
    assert(first_occurrence(line, marker) == h);
    let rest = line.skip(h + marker.len());
    assert(rest =~= id + seq![' '] + prefix + flags);
    assert forall|j: int| 0 <= j < id.len() implies rest[j] != ' ' by {
        assert(rest[j] == id[j]);
        assert(is_digit(id[j]));
    }
    assert(rest[id.len() as int] == ' ');
    lemma_first_index_of_unique(rest, ' ', id.len() as int);
    assert(rest.take(id.len() as int) =~= id);
    let tail = rest.skip(id.len() as int + 1);
    assert(tail =~= prefix + flags);
    assert(tail.take(prefix.len() as int) =~= prefix);
    assert(tail.skip(prefix.len() as int) =~= flags);
}

/// Reading a comma-free `t` after `p` only extends the current field.
proof fn lemma_field_scan_no_comma(p: Seq<char>, t: Seq<char>)
    requires
        !t.contains(','),
    ensures
        field_scan(p + t) == (field_scan(p).0, field_scan(p).1 + t),
    decreases t.len(),
{
    if t.len() == 0 {
        assert(p + t =~= p);
        assert(field_scan(p).1 + t =~= field_scan(p).1);
    } else {
        let t0 = t.drop_last();
        assert forall|x: char| t0.contains(x) implies t.contains(x) by {
            let k = choose|k: int| 0 <= k < t0.len() && t0[k] == x;
            assert(t[k] == x);
        }
        lemma_field_scan_no_comma(p, t0);
        assert((p + t).drop_last() =~= p + t0);
        assert((p + t).last() == t.last());
        assert(t[t.len() - 1] == t.last());
        assert(field_scan(p).1 + t0.push(t.last()) =~= field_scan(p).1 + t);
        assert((field_scan(p).1 + t0).push(t.last()) =~= field_scan(p).1 + t);
    }
}

/// Reading more never changes the fields already finished.
proof fn lemma_field_scan_extends(p: Seq<char>, b: Seq<char>)
    ensures
        field_scan(p).0.len() <= field_scan(p + b).0.len(),
        field_scan(p + b).0.take(field_scan(p).0.len() as int) == field_scan(p).0,
    decreases b.len(),
{
    if b.len() == 0 {
        assert(p + b =~= p);
        assert(field_scan(p).0.take(field_scan(p).0.len() as int) =~= field_scan(p).0);
    } else {
        let b0 = b.drop_last();
        lemma_field_scan_extends(p, b0);
        assert((p + b).drop_last() =~= p + b0);
        let d0 = field_scan(p + b0).0;
        let n = field_scan(p).0.len() as int;
        if (p + b).last() == ',' {
            let d = d0.push(field_scan(p + b0).1);
            assert(d.take(n) =~= d0.take(n));
        }
    }
}

/// `strip_newlines` leaves a text that does not end in a newline as it is.
proof fn lemma_strip_newlines_plain(s: Seq<char>)
    requires
        s.len() == 0 || s.last() != '\n',
    ensures
        strip_newlines(s) == s,
{
}

/// Flags that list `App Running` as one of their comma-separated fields,
/// between any other fields, name it; the text after it does not end in
/// a newline or is empty.
pub proof fn lemma_app_running_field(a: Seq<char>, b: Seq<char>)
    requires
        b.len() == 0 || b.last() != '\n',
    ensures
        names_app_running(a + seq![','] + "App Running"@ + seq![','] + b),
{
    reveal_strlit("App Running");
    let t = "App Running"@;
    assert(t[0] == 'A' && t[1] == 'p' && t[2] == 'p' && t[3] == ' ' && t[4] == 'R' && t[5] == 'u'
        && t[6] == 'n' && t[7] == 'n' && t[8] == 'i' && t[9] == 'n' && t[10] == 'g');
    assert(!t.contains(',')) by {
        if t.contains(',') {
            let k = choose|k: int| 0 <= k < t.len() && t[k] == ',';
        }
    }
    let p1 = a + seq![','];
    assert(p1.drop_last() =~= a);
    let d1 = field_scan(p1).0;
    assert(d1 == field_scan(a).0.push(field_scan(a).1));
    assert(field_scan(p1).1 =~= Seq::<char>::empty());
    lemma_field_scan_no_comma(p1, t);
    let p2 = p1 + t;
    assert(field_scan(p2).1 =~= t);
    let p3 = p2 + seq![','];
    assert(p3.drop_last() =~= p2);
    let d3 = field_scan(p3).0;
    assert(d3 == d1.push(t));
    let full = p3 + b;
    assert(full =~= a + seq![','] + t + seq![','] + b);
    lemma_field_scan_extends(p3, b);
    let fields = field_scan(full).0;
    let k = d1.len() as int;
    assert(fields.take(d3.len() as int)[k] == fields[k]);
    assert(fields[k] == t);
    if b.len() == 0 {
        assert(full.last() == ',');
    } else {
        assert(full.last() == b.last());
    }
    lemma_strip_newlines_plain(full);
    let cf = comma_fields(strip_newlines(full));
    assert(cf[k] == t);
    assert(t.last() == t[10]);
    assert(trim_start(t) == t);
    assert(trim(t) == t);
}

} // verus!
