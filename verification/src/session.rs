//! Session bookkeeping: the sessions open right now, the blocked games,
//! and the runtimes a heartbeat or a close records.
//!
//! At most one session is open per game key: a `Started` for a key that
//! is already open, or for a blocked key, opens nothing. A session's full
//! runtime is monotonic time since it opened (so a suspend, during which
//! the monotonic clock stops, adds nothing); its interactive runtime is
//! the full runtime less the billable idle, kept within `0..=full`.

use vstd::prelude::*;
use crate::clock::{elapsed_secs, clamp_i64, now, seconds_between, ClockKind, ClockReading};
use crate::idle::{billable_at, closed_in_range, open_in_range, IdleTracker};
use crate::key::{GameKey, KeyView};

verus! {

/// Seconds between heartbeats of the open sessions; also the most
/// runtime a crash can lose.
pub const HEARTBEAT_INTERVAL_SECS: u64 = 60;

/// A monotonic clock that session runtimes are measured against.
/// Production uses [`SystemClock`]; tests supply their own.
pub trait Clock {
    /// The current monotonic reading.
    fn now(&self) -> ClockReading;
}

/// The kernel's monotonic clock.
#[derive(Debug, Default, Clone, Copy)]
pub struct SystemClock;

impl Clock for SystemClock {
    fn now(&self) -> ClockReading {
        now(ClockKind::Monotonic)
    }
}

/// What is kept in memory of a session open in the database.
#[derive(Debug, Clone, Copy, PartialEq, Eq, Structural)]
pub struct OpenSession {
    /// The session's row id.
    pub session_id: i64,
    /// The application's row id.
    pub application_id: i64,
    /// Completed idle intervals when the session opened.
    pub baseline_idle_intervals_count: usize,
    /// Seconds already elapsed on the idle interval open when the
    /// session opened.
    pub baseline_open_idle_seconds: i64,
    /// Monotonic reading when the session opened.
    pub started: ClockReading,
}

/// Full runtime of `open` at `now`: whole monotonic seconds since it
/// opened.
pub open spec fn full_runtime(open: OpenSession, now: ClockReading) -> i64 {
    clamp_i64(elapsed_secs(open.started, now) as int)
}

/// `x` clamped into `lo..=hi`.
pub open spec fn clamp_between(x: int, lo: int, hi: int) -> int {
    if x < lo {
        lo
    } else if x > hi {
        hi
    } else {
        x
    }
}

/// The `(full, interactive)` runtimes of `open` at `now`, with `billable`
/// idle seconds: interactive is full less billable, kept within
/// `0..=full`.
pub open spec fn runtimes(open: OpenSession, now: ClockReading, billable: i64) -> (i64, i64) {
    let full = full_runtime(open, now);
    (full, clamp_between(full - billable, 0, full as int) as i64)
}

/// The runtimes of `open` at monotonic reading `now`, with `grace_seconds`
/// of cutscene forgiveness per idle interval.
pub fn runtimes_for(open: &OpenSession, now: ClockReading, idle: &IdleTracker, grace_seconds: i64) -> (r: (i64, i64))
    requires
        closed_in_range(
            idle@,
            open.baseline_idle_intervals_count as int,
            open.baseline_open_idle_seconds,
            grace_seconds,
        ),
        open_in_range(
            idle@,
            open.baseline_idle_intervals_count as int,
            open.baseline_open_idle_seconds,
            grace_seconds,
            now,
        ),
    ensures
        r == runtimes(
            *open,
            now,
            billable_at(
                idle@,
                open.baseline_idle_intervals_count as int,
                open.baseline_open_idle_seconds,
                grace_seconds,
                now,
            ),
        ),
        0 <= r.1 <= r.0,
{
    let full = seconds_between(open.started, now);
    let billable = idle.billable_idle_seconds_at(
        open.baseline_idle_intervals_count,
        open.baseline_open_idle_seconds,
        grace_seconds,
        now,
    );
    proof {
        crate::idle::lemma_billable_nonnegative(
            idle@,
            open.baseline_idle_intervals_count as int,
            open.baseline_open_idle_seconds,
            grace_seconds,
            now,
        );
    }
    let d = full - billable;
    let interactive = if d < 0 {
        0
    } else if d > full {
        full
    } else {
        d
    };
    (full, interactive)
}

/// Whether [`runtimes_for`] can compute the billable idle of `open` at
/// `now` without overflow.
pub fn runtimes_computable(open: &OpenSession, now: ClockReading, idle: &IdleTracker, grace_seconds: i64) -> (r: bool)
    ensures
        r == (closed_in_range(
            idle@,
            open.baseline_idle_intervals_count as int,
            open.baseline_open_idle_seconds,
            grace_seconds,
        ) && open_in_range(
            idle@,
            open.baseline_idle_intervals_count as int,
            open.baseline_open_idle_seconds,
            grace_seconds,
            now,
        )),
{
    idle.billable_in_range(
        open.baseline_idle_intervals_count,
        open.baseline_open_idle_seconds,
        grace_seconds,
        now,
    )
}

/// The idle grace setting in seconds as the `i64` the idle arithmetic
/// uses (`i64::try_from(..).unwrap_or(i64::MAX)`).
pub fn grace_as_i64(seconds: u64) -> (r: i64)
    ensures
        r == clamp_i64(seconds as int),
        r >= 0,
{
    if seconds > i64::MAX as u64 {
        i64::MAX
    } else {
        seconds as i64
    }
}

// ---------------------------------------------------------------------
// The open sessions.
// ---------------------------------------------------------------------

/// The map built by inserting the entries of `s` in order.
pub open spec fn entries_map(s: Seq<(KeyView, OpenSession)>) -> Map<KeyView, OpenSession>
    decreases s.len(),
{
    if s.len() == 0 {
        Map::empty()
    } else {
        entries_map(s.drop_last()).insert(s.last().0, s.last().1)
    }
}

/// The keys of `s` are pairwise distinct.
pub open spec fn distinct_keys(s: Seq<(KeyView, OpenSession)>) -> bool {
    forall|i: int, j: int| 0 <= i < s.len() && 0 <= j < s.len() && i != j ==> s[i].0 != s[j].0
}

/// For distinct keys, `entries_map` holds each entry and nothing else.
pub proof fn lemma_entries_map(s: Seq<(KeyView, OpenSession)>)
    requires
        distinct_keys(s),
    ensures
        forall|i: int|
            0 <= i < s.len() ==> #[trigger] entries_map(s).contains_key(s[i].0) && entries_map(s)[s[i].0]
                == s[i].1,
        forall|k: KeyView|
            #[trigger] entries_map(s).contains_key(k) ==> exists|i: int| 0 <= i < s.len() && s[i].0 == k,
    decreases s.len(),
{
    if s.len() > 0 {
        let init = s.drop_last();
        assert(distinct_keys(init)) by {
            assert forall|i: int, j: int| 0 <= i < init.len() && 0 <= j < init.len() && i != j implies init[i].0
                != init[j].0 by {
                assert(init[i] == s[i]);
                assert(init[j] == s[j]);
            }
        }
        lemma_entries_map(init);
        assert(entries_map(s) == entries_map(init).insert(s.last().0, s.last().1));
        assert forall|i: int| 0 <= i < s.len() implies #[trigger] entries_map(s).contains_key(s[i].0)
            && entries_map(s)[s[i].0] == s[i].1 by {
            if i < s.len() - 1 {
                assert(init[i] == s[i]);
                assert(s[i].0 != s[s.len() - 1].0);
            }
        }
        assert forall|k: KeyView| #[trigger] entries_map(s).contains_key(k) implies exists|i: int|
            0 <= i < s.len() && s[i].0 == k by {
            if k != s.last().0 {
                assert(entries_map(init).contains_key(k));
                let i = choose|i: int| 0 <= i < init.len() && init[i].0 == k;
                assert(init[i] == s[i]);
            } else {
                assert(s[s.len() - 1].0 == k);
            }
        }
    }
}

/// The sessions open right now, by game key.
#[derive(Debug)]
pub struct OpenSessions {
    entries: Vec<(GameKey, OpenSession)>,
}

/// The viewed entries.
pub open spec fn entries_view(v: Seq<(GameKey, OpenSession)>) -> Seq<(KeyView, OpenSession)> {
    v.map_values(|e: (GameKey, OpenSession)| (e.0@, e.1))
}

impl OpenSessions {
    #[verifier::type_invariant]
    spec fn one_per_key(self) -> bool {
        distinct_keys(entries_view(self.entries@))
    }
}

impl View for OpenSessions {
    type V = Map<KeyView, OpenSession>;

    closed spec fn view(&self) -> Map<KeyView, OpenSession> {
        entries_map(entries_view(self.entries@))
    }
}

impl OpenSessions {
    /// No session open.
    pub fn new() -> (r: Self)
        ensures
            r@ == Map::<KeyView, OpenSession>::empty(),
    {
        let r = OpenSessions { entries: Vec::new() };
        assert(entries_view(r.entries@) =~= Seq::empty());
        r
    }

    /// Position of `key`, or the length.
    fn position(&self, key: &GameKey) -> (r: usize)
        ensures
            r <= self.entries@.len(),
            r < self.entries@.len() ==> self.entries@[r as int].0@ == key@,
            r == self.entries@.len() ==> forall|j: int|
                0 <= j < self.entries@.len() ==> (#[trigger] self.entries@[j]).0@ != key@,
    {
        let mut i: usize = 0;
        while i < self.entries.len()
            invariant
                i <= self.entries@.len(),
                forall|j: int| 0 <= j < i ==> (#[trigger] self.entries@[j]).0@ != key@,
            decreases self.entries.len() - i,
        {
            if self.entries[i].0.same_as(key) {
                return i;
            }
            i += 1;
        }
        i
    }

    /// Whether a session is open under `key`.
    pub fn contains_key(&self, key: &GameKey) -> (r: bool)
        ensures
            r == self@.contains_key(key@),
    {
        proof {
            use_type_invariant(self);
            lemma_entries_map(entries_view(self.entries@));
        }
        let ghost ev = entries_view(self.entries@);
        let p = self.position(key);
        if p < self.entries.len() {
            assert(ev[p as int].0 == key@);
            true
        } else {
            assert(!self@.contains_key(key@)) by {
                if self@.contains_key(key@) {
                    let i = choose|i: int| 0 <= i < ev.len() && ev[i].0 == key@;
                    assert(self.entries@[i].0@ != key@);
                }
            }
            false
        }
    }

    /// Number of open sessions.
    pub fn len(&self) -> (r: usize)
        ensures
            r == self@.len(),
    {
        proof {
            use_type_invariant(self);
            lemma_entries_map(entries_view(self.entries@));
            lemma_entries_len(entries_view(self.entries@));
        }
        self.entries.len()
    }

    /// Whether no session is open.
    pub fn is_empty(&self) -> (r: bool)
        ensures
            r == (self@.len() == 0),
    {
        self.len() == 0
    }

    /// Open a session under `key`, unless one is already open under it;
    /// `true` when it was opened.
    pub fn insert(&mut self, key: GameKey, open: OpenSession) -> (r: bool)
        ensures
            r == !old(self)@.contains_key(key@),
            r ==> final(self)@ == old(self)@.insert(key@, open),
            !r ==> final(self)@ == old(self)@,
    {
        if self.contains_key(&key) {
            return false;
        }
        proof {
            use_type_invariant(&*self);
        }
        let ghost old_entries = self.entries@;
        let ghost kv = key@;
        let mut entries: Vec<(GameKey, OpenSession)> = Vec::new();
        std::mem::swap(&mut entries, &mut self.entries);
        entries.push((key, open));
        proof {
            let ov = entries_view(old_entries);
            let nv = entries_view(entries@);
            assert(nv =~= ov.push((kv, open)));
            assert(nv.drop_last() =~= ov);
            lemma_entries_map(ov);
            assert forall|i: int, j: int| 0 <= i < nv.len() && 0 <= j < nv.len() && i != j implies nv[i].0
                != nv[j].0 by {
                if j == ov.len() {
                    assert(entries_map(ov).contains_key(ov[i].0));
                } else if i == ov.len() {
                    assert(entries_map(ov).contains_key(ov[j].0));
                } else {
                    assert(nv[i] == ov[i]);
                    assert(nv[j] == ov[j]);
                }
            }
        }
        self.entries = entries;
        true
    }

    /// Close the session under `key`, returning what was kept of it.
    pub fn remove(&mut self, key: &GameKey) -> (r: Option<OpenSession>)
        ensures
            match r {
                Some(o) => old(self)@.contains_key(key@) && old(self)@[key@] == o,
                None => !old(self)@.contains_key(key@),
            },
            final(self)@ == old(self)@.remove(key@),
    {
        proof {
            use_type_invariant(&*self);
            lemma_entries_map(entries_view(self.entries@));
        }
        let ghost ov = entries_view(self.entries@);
        let p = self.position(key);
        if p == self.entries.len() {
            assert(!self@.contains_key(key@)) by {
                if self@.contains_key(key@) {
                    let i = choose|i: int| 0 <= i < ov.len() && ov[i].0 == key@;
                    assert(self.entries@[i].0@ != key@);
                }
            }
            assert(self@.remove(key@) =~= self@);
            return None;
        }
        assert(ov[p as int].0 == key@);
        assert(entries_map(ov).contains_key(ov[p as int].0));
        let ghost oe = self.entries@;
        let mut entries: Vec<(GameKey, OpenSession)> = Vec::new();
        std::mem::swap(&mut entries, &mut self.entries);
        let removed = entries.remove(p);
        assert(removed == oe[p as int]);
        let o = removed.1;
        assert(o == ov[p as int].1);
        let ghost nv = entries_view(entries@);
        proof {
            assert(nv =~= ov.remove(p as int));
            assert forall|i: int, j: int| 0 <= i < nv.len() && 0 <= j < nv.len() && i != j implies nv[i].0
                != nv[j].0 by {
                let oi = if i < p { i } else { i + 1 };
                let oj = if j < p { j } else { j + 1 };
                assert(nv[i] == ov[oi]);
                assert(nv[j] == ov[oj]);
            }
            lemma_entries_map(nv);
            let om = entries_map(ov);
            let nm = entries_map(nv);
            assert(nm =~= om.remove(key@)) by {
                assert forall|k: KeyView| nm.contains_key(k) implies om.remove(key@).contains_key(k)
                    && nm[k] == om.remove(key@)[k] by {
                    let i = choose|i: int| 0 <= i < nv.len() && nv[i].0 == k;
                    let oi = if i < p { i } else { i + 1 };
                    assert(nv[i] == ov[oi]);
                    assert(oi != p);
                }
                assert forall|k: KeyView| om.remove(key@).contains_key(k) implies nm.contains_key(
                    k,
                ) by {
                    let i = choose|i: int| 0 <= i < ov.len() && ov[i].0 == k;
                    assert(i != p);
                    let ni = if i < p { i } else { i - 1 };
                    assert(nv[ni] == ov[i]);
                }
            }
        }
        self.entries = entries;
        Some(o)
    }

    /// Every open session, in no particular order.
    pub fn values(&self) -> (r: Vec<OpenSession>)
        ensures
            forall|o: OpenSession| r@.contains(o) <==> exists|k: KeyView| #[trigger] self@.contains_key(k) && self@[k] == o,
            r@.len() == self@.len(),
    {
        proof {
            use_type_invariant(self);
            lemma_entries_map(entries_view(self.entries@));
            lemma_entries_len(entries_view(self.entries@));
        }
        let ghost ev = entries_view(self.entries@);
        let mut out: Vec<OpenSession> = Vec::new();
        let mut i: usize = 0;
        while i < self.entries.len()
            invariant
                i <= self.entries@.len(),
                ev == entries_view(self.entries@),
                out@.len() == i,
                forall|j: int| 0 <= j < i ==> #[trigger] out@[j] == ev[j].1,
            decreases self.entries.len() - i,
        {
            out.push(self.entries[i].1);
            i += 1;
        }
        proof {
            assert forall|o: OpenSession| out@.contains(o) implies exists|k: KeyView| #[trigger]
                self@.contains_key(k) && self@[k] == o by {
                let j = choose|j: int| 0 <= j < out@.len() && out@[j] == o;
                assert(self@.contains_key(ev[j].0));
            }
            assert forall|o: OpenSession| (exists|k: KeyView| #[trigger] self@.contains_key(k) && self@[k] == o) implies out@.contains(o) by {
                let k = choose|k: KeyView| #[trigger] self@.contains_key(k) && self@[k] == o;
                let j = choose|j: int| 0 <= j < ev.len() && ev[j].0 == k;
                assert(out@[j] == o);
            }
        }
        out
    }

    /// Close every session: the registry empties and what was kept of
    /// each is returned.
    pub fn drain(&mut self) -> (r: Vec<OpenSession>)
        ensures
            final(self)@ == Map::<KeyView, OpenSession>::empty(),
            forall|o: OpenSession| r@.contains(o) <==> exists|k: KeyView| #[trigger] old(self)@.contains_key(k) && old(self)@[k] == o,
            r@.len() == old(self)@.len(),
    {
        let r = self.values();
        let empty: Vec<(GameKey, OpenSession)> = Vec::new();
        self.entries = empty;
        assert(entries_view(self.entries@) =~= Seq::empty());
        r
    }
}

/// The map of distinct entries has one key per entry.
proof fn lemma_entries_len(s: Seq<(KeyView, OpenSession)>)
    requires
        distinct_keys(s),
    ensures
        entries_map(s).len() == s.len(),
        entries_map(s).dom().finite(),
    decreases s.len(),
{
    if s.len() > 0 {
        let init = s.drop_last();
        assert(distinct_keys(init)) by {
            assert forall|i: int, j: int| 0 <= i < init.len() && 0 <= j < init.len() && i != j implies init[i].0
                != init[j].0 by {
                assert(init[i] == s[i]);
                assert(init[j] == s[j]);
            }
        }
        lemma_entries_len(init);
        lemma_entries_map(init);
        assert(!entries_map(init).contains_key(s.last().0)) by {
            if entries_map(init).contains_key(s.last().0) {
                let i = choose|i: int| 0 <= i < init.len() && init[i].0 == s.last().0;
                assert(init[i] == s[i]);
            }
        }
    }
}

// ---------------------------------------------------------------------
// Blocked games, and the decision on a start.
// ---------------------------------------------------------------------

/// The games the user blocked: a start of one opens no session.
#[derive(Debug)]
pub struct BlockedKeys {
    keys: Vec<GameKey>,
}

impl BlockedKeys {
    #[verifier::type_invariant]
    spec fn distinct(self) -> bool {
        forall|i: int, j: int|
            0 <= i < self.keys@.len() && 0 <= j < self.keys@.len() && i != j ==> self.keys@[i]@
                != self.keys@[j]@
    }
}

impl View for BlockedKeys {
    type V = Set<KeyView>;

    closed spec fn view(&self) -> Set<KeyView> {
        Set::new(|k: KeyView| exists|i: int| 0 <= i < self.keys@.len() && (#[trigger] self.keys@[i])@ == k)
    }
}

impl BlockedKeys {
    /// Nothing blocked.
    pub fn new() -> (r: Self)
        ensures
            r@ == Set::<KeyView>::empty(),
    {
        let r = BlockedKeys { keys: Vec::new() };
        assert(r@ =~= Set::<KeyView>::empty());
        r
    }

    /// Position of `key`, or the length.
    fn position(&self, key: &GameKey) -> (r: usize)
        ensures
            r <= self.keys@.len(),
            r < self.keys@.len() ==> self.keys@[r as int]@ == key@,
            r == self.keys@.len() ==> !self@.contains(key@),
    {
        let mut i: usize = 0;
        while i < self.keys.len()
            invariant
                i <= self.keys@.len(),
                forall|j: int| 0 <= j < i ==> (#[trigger] self.keys@[j])@ != key@,
            decreases self.keys.len() - i,
        {
            if self.keys[i].same_as(key) {
                return i;
            }
            i += 1;
        }
        i
    }

    /// Whether `key` is blocked.
    pub fn contains(&self, key: &GameKey) -> (r: bool)
        ensures
            r == self@.contains(key@),
    {
        let p = self.position(key);
        if p < self.keys.len() {
            assert(self@.contains(key@)) by {
                assert(self.keys@[p as int]@ == key@);
            }
            true
        } else {
            false
        }
    }

    /// Block `key`; `true` when it was not blocked before.
    pub fn insert(&mut self, key: GameKey) -> (r: bool)
        ensures
            r == !old(self)@.contains(key@),
            final(self)@ == old(self)@.insert(key@),
    {
        proof {
            use_type_invariant(&*self);
        }
        if self.contains(&key) {
            assert(self@.insert(key@) =~= self@);
            return false;
        }
        let ghost old_keys = self.keys@;
        let ghost kv = key@;
        let mut keys: Vec<GameKey> = Vec::new();
        std::mem::swap(&mut keys, &mut self.keys);
        keys.push(key);
        assert forall|i: int, j: int|
            0 <= i < keys@.len() && 0 <= j < keys@.len() && i != j implies keys@[i]@ != keys@[j]@ by {
            if j == old_keys.len() {
                assert(old(self)@.contains(old_keys[i]@));
            } else if i == old_keys.len() {
                assert(old(self)@.contains(old_keys[j]@));
            }
        }
        self.keys = keys;
        assert(self@ =~= old(self)@.insert(kv)) by {
            assert forall|x: KeyView| self@.contains(x) implies old(self)@.insert(kv).contains(x) by {
                let i = choose|i: int| 0 <= i < self.keys@.len() && (#[trigger] self.keys@[i])@ == x;
                if i < old_keys.len() {
                    assert(old_keys[i] == self.keys@[i]);
                }
            }
            assert forall|x: KeyView| old(self)@.insert(kv).contains(x) implies self@.contains(x) by {
                if x == kv {
                    assert(self.keys@[old_keys.len() as int]@ == x);
                } else {
                    let i = choose|i: int| 0 <= i < old_keys.len() && (#[trigger] old_keys[i])@ == x;
                    assert(self.keys@[i] == old_keys[i]);
                }
            }
        }
        true
    }

    /// Unblock `key`; `true` when it was blocked.
    pub fn remove(&mut self, key: &GameKey) -> (r: bool)
        ensures
            r == old(self)@.contains(key@),
            final(self)@ == old(self)@.remove(key@),
    {
        proof {
            use_type_invariant(&*self);
        }
        let p = self.position(key);
        if p == self.keys.len() {
            assert(self@.remove(key@) =~= self@);
            return false;
        }
        let ghost old_keys = self.keys@;
        assert(old(self)@.contains(key@)) by {
            assert(old_keys[p as int]@ == key@);
        }
        let mut keys: Vec<GameKey> = Vec::new();
        std::mem::swap(&mut keys, &mut self.keys);
        keys.remove(p);
        assert forall|i: int, j: int|
            0 <= i < keys@.len() && 0 <= j < keys@.len() && i != j implies keys@[i]@ != keys@[j]@ by {
            let oi = if i < p { i } else { i + 1 };
            let oj = if j < p { j } else { j + 1 };
            assert(keys@[i] == old_keys[oi]);
            assert(keys@[j] == old_keys[oj]);
        }
        self.keys = keys;
        assert(self@ =~= old(self)@.remove(key@)) by {
            assert forall|x: KeyView| self@.contains(x) implies old(self)@.remove(key@).contains(x) by {
                let i = choose|i: int| 0 <= i < self.keys@.len() && (#[trigger] self.keys@[i])@ == x;
                let oi = if i < p { i } else { i + 1 };
                assert(self.keys@[i] == old_keys[oi]);
                assert(oi != p);
                assert(old_keys[oi]@ != old_keys[p as int]@);
            }
            assert forall|x: KeyView| old(self)@.remove(key@).contains(x) implies self@.contains(x) by {
                let i = choose|i: int| 0 <= i < old_keys.len() && (#[trigger] old_keys[i])@ == x;
                assert(i != p);
                let ni = if i < p { i } else { i - 1 };
                assert(self.keys@[ni] == old_keys[i]);
            }
        }
        true
    }
}

/// What a `Started` event for a key leads to.
#[derive(Debug, Clone, Copy, PartialEq, Eq, Structural)]
pub enum StartVerdict {
    /// The game is blocked: no session.
    Blocked,
    /// A session is already open under the key: the start is dropped.
    AlreadyOpen,
    /// Open a session.
    Open,
}

/// The verdict on a start of `key`.
pub open spec fn start_verdict_of(blocked: Set<KeyView>, open: Map<KeyView, OpenSession>, key: KeyView) -> StartVerdict {
    if blocked.contains(key) {
        StartVerdict::Blocked
    } else if open.contains_key(key) {
        StartVerdict::AlreadyOpen
    } else {
        StartVerdict::Open
    }
}

/// Decide on a `Started` event for `key`.
pub fn start_verdict(blocked: &BlockedKeys, open: &OpenSessions, key: &GameKey) -> (r: StartVerdict)
    ensures
        r == start_verdict_of(blocked@, open@, key@),
{
    if blocked.contains(key) {
        StartVerdict::Blocked
    } else if open.contains_key(key) {
        StartVerdict::AlreadyOpen
    } else {
        StartVerdict::Open
    }
}

/// A start admitted by the verdict opens exactly one session, under its
/// key: afterwards the key maps to the new session and every other open
/// session is untouched; a start that is not admitted changes nothing.
pub proof fn lemma_one_session_per_key(
    blocked: Set<KeyView>,
    open: Map<KeyView, OpenSession>,
    key: KeyView,
    session: OpenSession,
)
    requires
        start_verdict_of(blocked, open, key) == StartVerdict::Open,
    ensures
        !open.contains_key(key),
        open.insert(key, session).contains_key(key),
        open.insert(key, session)[key] == session,
        forall|k: KeyView| k != key ==> open.insert(key, session).contains_key(k) == open.contains_key(k),
{
}

/// Runtimes are always within the database's constraints: interactive is
/// never negative and never more than full.
pub proof fn lemma_runtimes_in_bounds(open: OpenSession, now: ClockReading, billable: i64)
    requires
        billable >= 0,
    ensures
        0 <= runtimes(open, now, billable).1 <= runtimes(open, now, billable).0,
        runtimes(open, now, billable).0 >= 0,
{
}

} // verus!
