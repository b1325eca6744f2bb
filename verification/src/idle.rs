//! User-idle accounting for interactive runtime.
//!
//! Every open session records a baseline when it starts; on heartbeat
//! and close the session manager asks how many idle seconds since that
//! baseline are billable, and subtracts them from the full runtime to
//! get the interactive runtime.
//!
//! Idle time is kept as one duration per natural idle interval, so that
//! each interval is forgiven its own cutscene grace: two short
//! cutscenes in one session do not pool their forgiveness.
//!
//! The tracker holds no lock: the daemon shares it behind a mutex, and
//! every method here is the body that runs while the lock is held.

use vstd::prelude::*;
use crate::clock::{
    clamp_i64, elapsed_secs, now, saturating_add_i64, seconds_between, ClockKind, ClockReading,
};

verus! {

/// Seconds the user has been idle, interval by interval.
#[derive(Debug)]
pub struct IdleTracker {
    /// Durations of the completed idle intervals, oldest first.
    closed_intervals_seconds: Vec<i64>,
    /// Monotonic-clock reading at which the current idle interval
    /// started, if the user is idle now.
    since: Option<ClockReading>,
}

/// The mathematical content of an [`IdleTracker`].
pub struct IdleView {
    /// Durations of the completed intervals.
    pub closed: Seq<i64>,
    /// Start of the open interval, if any.
    pub since: Option<ClockReading>,
}

impl View for IdleTracker {
    type V = IdleView;

    closed spec fn view(&self) -> IdleView {
        IdleView { closed: self.closed_intervals_seconds@, since: self.since }
    }
}

/// The left fold of `s` with saturating addition, from zero.
pub open spec fn saturating_sum(s: Seq<i64>) -> i64
    decreases s.len(),
{
    if s.len() == 0 {
        0
    } else {
        clamp_i64(saturating_sum(s.drop_last()) + s.last())
    }
}

/// Seconds elapsed on the open interval at `now`, zero if none is open.
pub open spec fn open_elapsed(since: Option<ClockReading>, now: ClockReading) -> i64 {
    match since {
        Some(t) => clamp_i64(elapsed_secs(t, now) as int),
        None => 0,
    }
}

/// Total idle seconds at `now`: the completed intervals plus the open
/// one, summed with saturation.
pub open spec fn accumulated_at(v: IdleView, now: ClockReading) -> i64 {
    match v.since {
        Some(t) => clamp_i64(saturating_sum(v.closed) + open_elapsed(v.since, now)),
        None => saturating_sum(v.closed),
    }
}

/// The larger of `a` and `b`.
pub open spec fn max_i64(a: i64, b: i64) -> i64 {
    if a >= b {
        a
    } else {
        b
    }
}

/// Seconds forgiven of an interval: the first interval after a session's
/// baseline (the one open when the session started) is forgiven
/// `max(baseline_open, grace)`, every later one `grace`.
pub open spec fn forgiven(first: bool, baseline_open: i64, grace: i64) -> i64 {
    if first {
        max_i64(baseline_open, grace)
    } else {
        grace
    }
}

/// The billable part of one interval: its duration less what is
/// forgiven, never negative.
pub open spec fn billable_part(duration: i64, forgive: i64) -> int {
    if duration - forgive > 0 {
        duration - forgive
    } else {
        0
    }
}

/// Billable seconds of the completed intervals `baseline..upto`, summed
/// with saturation.
pub open spec fn billable_closed(
    closed: Seq<i64>,
    baseline: int,
    upto: int,
    baseline_open: i64,
    grace: i64,
) -> i64
    decreases upto - baseline,
{
    if upto <= baseline {
        0
    } else {
        clamp_i64(
            billable_closed(closed, baseline, upto - 1, baseline_open, grace) + billable_part(
                closed[upto - 1],
                forgiven(upto - 1 == baseline, baseline_open, grace),
            ),
        )
    }
}

/// Billable idle seconds at `now` for a session whose baseline was
/// `(baseline, baseline_open)`: every interval completed after the
/// baseline, then the open one, each less what it is forgiven.
pub open spec fn billable_at(
    v: IdleView,
    baseline: int,
    baseline_open: i64,
    grace: i64,
    now: ClockReading,
) -> i64 {
    let c = billable_closed(v.closed, baseline, v.closed.len() as int, baseline_open, grace);
    match v.since {
        Some(t) => clamp_i64(
            c + billable_part(
                open_elapsed(v.since, now),
                forgiven(v.closed.len() <= baseline, baseline_open, grace),
            ),
        ),
        None => c,
    }
}

/// Each completed interval after the baseline, less what it is
/// forgiven, fits in an `i64` (the subtraction is not checked).
pub open spec fn closed_in_range(v: IdleView, baseline: int, baseline_open: i64, grace: i64) -> bool {
    forall|j: int|
        baseline <= j < v.closed.len() ==> i64::MIN <= #[trigger] v.closed[j] - forgiven(
            j == baseline,
            baseline_open,
            grace,
        ) <= i64::MAX
}

/// The open interval's elapsed seconds at `now`, less what it is
/// forgiven, fits in an `i64`.
pub open spec fn open_in_range(
    v: IdleView,
    baseline: int,
    baseline_open: i64,
    grace: i64,
    now: ClockReading,
) -> bool {
    v.since is Some ==> open_elapsed(v.since, now) - forgiven(
        v.closed.len() <= baseline,
        baseline_open,
        grace,
    ) <= i64::MAX
}

/// The state after an `IdleHint` report of `idle` at `now`: going idle
/// opens an interval, leaving idle seals it, repeats change nothing.
pub open spec fn after_hint(v: IdleView, idle: bool, now: ClockReading) -> IdleView {
    match v.since {
        None => if idle {
            IdleView { closed: v.closed, since: Some(now) }
        } else {
            v
        },
        Some(t) => if idle {
            v
        } else {
            IdleView { closed: v.closed.push(open_elapsed(v.since, now)), since: None }
        },
    }
}

impl IdleTracker {
    /// A tracker with no idle time.
    pub fn new() -> (r: Self)
        ensures
            r@.closed == Seq::<i64>::empty(),
            r@.since is None,
    {
        IdleTracker { closed_intervals_seconds: Vec::new(), since: None }
    }

    /// Sum of the completed intervals.
    fn closed_total(&self) -> (r: i64)
        ensures
            r == saturating_sum(self@.closed),
    {
        let mut total: i64 = 0;
        let mut i: usize = 0;
        while i < self.closed_intervals_seconds.len()
            invariant
                i <= self.closed_intervals_seconds@.len(),
                total == saturating_sum(self.closed_intervals_seconds@.take(i as int)),
            decreases self.closed_intervals_seconds.len() - i,
        {
            let ghost s = self.closed_intervals_seconds@;
            assert(s.take(i + 1).drop_last() =~= s.take(i as int));
            total = saturating_add_i64(total, self.closed_intervals_seconds[i]);
            i += 1;
        }
        assert(self.closed_intervals_seconds@.take(i as int) =~= self.closed_intervals_seconds@);
        total
    }

    /// Total idle seconds at monotonic reading `now`, the open interval
    /// included.
    pub fn accumulated_idle_seconds_at(&self, now: ClockReading) -> (r: i64)
        ensures
            r == accumulated_at(self@, now),
    {
        let total = self.closed_total();
        match self.since {
            Some(t) => saturating_add_i64(total, seconds_between(t, now)),
            None => total,
        }
    }

    /// Total idle seconds since the tracker was created; if the user is
    /// idle now, the open interval counts up to the present.
    pub fn accumulated_idle_seconds(&self) -> (r: i64)
        ensures
            exists|t: ClockReading| r == accumulated_at(self@, t),
            self@.since is None ==> r == saturating_sum(self@.closed),
    {
        let t = now(ClockKind::Monotonic);
        self.accumulated_idle_seconds_at(t)
    }

    /// Number of completed idle intervals; a session captures it at start.
    pub fn closed_intervals_count(&self) -> (r: usize)
        ensures
            r == self@.closed.len(),
    {
        self.closed_intervals_seconds.len()
    }

    /// The baseline of a session opening at `now`: the number of
    /// completed intervals and the seconds already elapsed on the open
    /// one.
    pub fn session_start_baseline_at(&self, now: ClockReading) -> (r: (usize, i64))
        ensures
            r.0 == self@.closed.len(),
            r.1 == open_elapsed(self@.since, now),
    {
        let open = match self.since {
            Some(t) => seconds_between(t, now),
            None => 0,
        };
        (self.closed_intervals_seconds.len(), open)
    }

    /// The baseline of a session opening now. Both parts are read from
    /// one state, so an interval sealing in between cannot leak idle from
    /// before the session into it.
    pub fn session_start_baseline(&self) -> (r: (usize, i64))
        ensures
            r.0 == self@.closed.len(),
            exists|t: ClockReading| r.1 == open_elapsed(self@.since, t),
            self@.since is None ==> r.1 == 0,
    {
        let t = now(ClockKind::Monotonic);
        self.session_start_baseline_at(t)
    }

    /// Billable seconds of the completed intervals after the baseline.
    fn billable_closed_total(
        &self,
        baseline_count: usize,
        baseline_open_seconds: i64,
        grace_seconds: i64,
    ) -> (r: i64)
        requires
            closed_in_range(self@, baseline_count as int, baseline_open_seconds, grace_seconds),
        ensures
            r == billable_closed(
                self@.closed,
                baseline_count as int,
                self@.closed.len() as int,
                baseline_open_seconds,
                grace_seconds,
            ),
    {
        let len = self.closed_intervals_seconds.len();
        if baseline_count >= len {
            return 0;
        }
        let first_forgiven = if baseline_open_seconds >= grace_seconds {
            baseline_open_seconds
        } else {
            grace_seconds
        };
        let mut total: i64 = 0;
        let mut j: usize = baseline_count;
        while j < len
            invariant
                baseline_count <= j <= len,
                len == self.closed_intervals_seconds@.len(),
                first_forgiven == max_i64(baseline_open_seconds, grace_seconds),
                closed_in_range(self@, baseline_count as int, baseline_open_seconds, grace_seconds),
                total == billable_closed(
                    self@.closed,
                    baseline_count as int,
                    j as int,
                    baseline_open_seconds,
                    grace_seconds,
                ),
            decreases len - j,
        {
            let f = if j == baseline_count {
                first_forgiven
            } else {
                grace_seconds
            };
            let dur = self.closed_intervals_seconds[j];
            assert(i64::MIN <= self@.closed[j as int] - forgiven(
                j == baseline_count,
                baseline_open_seconds,
                grace_seconds,
            ) <= i64::MAX);
            let diff = dur - f;
            let part = if diff > 0 {
                diff
            } else {
                0
            };
            total = saturating_add_i64(total, part);
            j += 1;
        }
        total
    }

    /// Billable idle seconds at `now` for a session whose baseline was
    /// `(baseline_count, baseline_open_seconds)`: each interval after the
    /// baseline less `grace_seconds`, never negative; the interval open at
    /// session start is forgiven `max(baseline_open_seconds,
    /// grace_seconds)` once, so idle from before the session is never
    /// billed and the grace is not forgiven twice.
    pub fn billable_idle_seconds_at(
        &self,
        baseline_count: usize,
        baseline_open_seconds: i64,
        grace_seconds: i64,
        now: ClockReading,
    ) -> (r: i64)
        requires
            closed_in_range(self@, baseline_count as int, baseline_open_seconds, grace_seconds),
        ensures
            r == billable_at(self@, baseline_count as int, baseline_open_seconds, grace_seconds, now),
    {
        let total = self.billable_closed_total(baseline_count, baseline_open_seconds, grace_seconds);
        match self.since {
            Some(t) => {
                let dur = seconds_between(t, now);
                let f = if baseline_count >= self.closed_intervals_seconds.len() {
                    if baseline_open_seconds >= grace_seconds {
                        baseline_open_seconds
                    } else {
                        grace_seconds
                    }
                } else {
                    grace_seconds
                };
                // Widened: a negative forgiveness can push the difference
                // past `i64::MAX`.
                let diff: i128 = (dur as i128) - (f as i128);
                let part: i128 = if diff > 0 {
                    diff
                } else {
                    0
                };
                let sum: i128 = (total as i128) + part;
                if sum > (i64::MAX as i128) {
                    i64::MAX
                } else {
                    sum as i64
                }
            },
            None => total,
        }
    }

    /// Whether [`Self::billable_idle_seconds_at`] can be computed for these
    /// arguments: each forgiven subtraction fits in an `i64`.
    pub fn billable_in_range(
        &self,
        baseline_count: usize,
        baseline_open_seconds: i64,
        grace_seconds: i64,
        now: ClockReading,
    ) -> (r: bool)
        ensures
            r == (closed_in_range(self@, baseline_count as int, baseline_open_seconds, grace_seconds)
                && open_in_range(self@, baseline_count as int, baseline_open_seconds, grace_seconds, now)),
    {
        let first_forgiven = if baseline_open_seconds >= grace_seconds {
            baseline_open_seconds
        } else {
            grace_seconds
        };
        let len = self.closed_intervals_seconds.len();
        let mut j: usize = baseline_count;
        while j < len
            invariant
                baseline_count <= j,
                len == self.closed_intervals_seconds@.len(),
                first_forgiven == max_i64(baseline_open_seconds, grace_seconds),
                forall|k: int|
                    baseline_count <= k < j && k < len ==> i64::MIN <= #[trigger] self@.closed[k] - forgiven(
                        k == baseline_count,
                        baseline_open_seconds,
                        grace_seconds,
                    ) <= i64::MAX,
            decreases len - j,
        {
            let f = if j == baseline_count {
                first_forgiven
            } else {
                grace_seconds
            };
            let d: i128 = (self.closed_intervals_seconds[j] as i128) - (f as i128);
            if d < (i64::MIN as i128) || d > (i64::MAX as i128) {
                assert(!(i64::MIN <= self@.closed[j as int] - forgiven(
                    j == baseline_count,
                    baseline_open_seconds,
                    grace_seconds,
                ) <= i64::MAX));
                assert(baseline_count <= j < self@.closed.len());
                assert(!closed_in_range(self@, baseline_count as int, baseline_open_seconds, grace_seconds));
                return false;
            }
            j += 1;
        }
        match self.since {
            Some(t) => {
                let e = seconds_between(t, now);
                let f = if len <= baseline_count {
                    first_forgiven
                } else {
                    grace_seconds
                };
                (e as i128) - (f as i128) <= (i64::MAX as i128)
            },
            None => true,
        }
    }

    /// [`Self::billable_idle_seconds_at`] at the present moment.
    pub fn billable_idle_seconds_since(
        &self,
        baseline_count: usize,
        baseline_open_seconds: i64,
        grace_seconds: i64,
    ) -> (r: i64)
        requires
            closed_in_range(self@, baseline_count as int, baseline_open_seconds, grace_seconds),
        ensures
            exists|t: ClockReading|
                r == billable_at(
                    self@,
                    baseline_count as int,
                    baseline_open_seconds,
                    grace_seconds,
                    t,
                ),
            self@.since is None ==> r == billable_closed(
                self@.closed,
                baseline_count as int,
                self@.closed.len() as int,
                baseline_open_seconds,
                grace_seconds,
            ),
    {
        let t = now(ClockKind::Monotonic);
        self.billable_idle_seconds_at(baseline_count, baseline_open_seconds, grace_seconds, t)
    }

    /// Whether the last report said the user is idle.
    pub fn is_idle(&self) -> (r: bool)
        ensures
            r == self@.since is Some,
    {
        self.since.is_some()
    }

    /// Record an `IdleHint` report of `idle` at `now`. Repeated reports
    /// of the same value change nothing.
    pub fn set_idle_at(&mut self, idle: bool, now: ClockReading)
        ensures
            final(self)@ == after_hint(old(self)@, idle, now),
    {
        match self.since {
            None => {
                if idle {
                    self.since = Some(now);
                }
            },
            Some(t) => {
                if !idle {
                    let duration = seconds_between(t, now);
                    self.closed_intervals_seconds.push(duration);
                    self.since = None;
                }
            },
        }
    }

    /// Record an `IdleHint` report of `idle` now.
    pub fn set_idle(&mut self, idle: bool)
        ensures
            exists|t: ClockReading| final(self)@ == after_hint(old(self)@, idle, t),
    {
        let t = now(ClockKind::Monotonic);
        self.set_idle_at(idle, t);
    }

    /// Append a completed idle interval of `seconds`, for sources that
    /// report whole intervals rather than transitions.
    pub fn record_idle_interval(&mut self, seconds: i64)
        ensures
            final(self)@.closed == old(self)@.closed.push(seconds),
            final(self)@.since == old(self)@.since,
    {
        self.closed_intervals_seconds.push(seconds);
    }
}

// ---------------------------------------------------------------------
// Laws of idle accounting.
// ---------------------------------------------------------------------

/// Reporting an idle transition never changes the accumulated idle time
/// at the instant of the report: sealing an interval moves its elapsed
/// seconds from the open interval to the completed ones.
pub proof fn lemma_hint_keeps_accumulated(v: IdleView, idle: bool, now: ClockReading)
    ensures
        accumulated_at(after_hint(v, idle, now), now) == accumulated_at(v, now),
{
    match v.since {
        None => {
            assert(elapsed_secs(now, now) == 0);
        },
        Some(t) => {
            if !idle {
                let e = open_elapsed(v.since, now);
                assert(v.closed.push(e).drop_last() =~= v.closed);
            }
        },
    }
}

/// Billable idle is never negative.
pub proof fn lemma_billable_nonnegative(
    v: IdleView,
    baseline: int,
    baseline_open: i64,
    grace: i64,
    now: ClockReading,
)
    ensures
        billable_at(v, baseline, baseline_open, grace, now) >= 0,
{
    lemma_billable_closed_nonnegative(v.closed, baseline, v.closed.len() as int, baseline_open, grace);
}

proof fn lemma_billable_closed_nonnegative(
    closed: Seq<i64>,
    baseline: int,
    upto: int,
    baseline_open: i64,
    grace: i64,
)
    ensures
        billable_closed(closed, baseline, upto, baseline_open, grace) >= 0,
    decreases upto - baseline,
{
    if upto > baseline {
        lemma_billable_closed_nonnegative(closed, baseline, upto - 1, baseline_open, grace);
    }
}

/// A session is billed nothing at the instant it starts: idle from
/// before the session, including the part of an interval already open at
/// its start, is never charged to it.
pub proof fn lemma_baseline_bills_nothing(v: IdleView, grace: i64, now: ClockReading)
    ensures
        billable_at(v, v.closed.len() as int, open_elapsed(v.since, now), grace, now) == 0,
{
}

proof fn lemma_billable_closed_prefix(
    closed: Seq<i64>,
    longer: Seq<i64>,
    baseline: int,
    upto: int,
    baseline_open: i64,
    grace: i64,
)
    requires
        0 <= baseline,
        upto <= closed.len() <= longer.len(),
        forall|j: int| 0 <= j < closed.len() ==> longer[j] == closed[j],
    ensures
        billable_closed(longer, baseline, upto, baseline_open, grace) == billable_closed(
            closed,
            baseline,
            upto,
            baseline_open,
            grace,
        ),
    decreases upto - baseline,
{
    if upto > baseline {
        lemma_billable_closed_prefix(closed, longer, baseline, upto - 1, baseline_open, grace);
        assert(longer[upto - 1] == closed[upto - 1]);
    }
}

/// Sealing the open interval does not change what a session is billed
/// at that instant: the interval is forgiven the same amount whether it
/// is still open or completed.
pub proof fn lemma_sealing_keeps_billable(
    v: IdleView,
    baseline: int,
    baseline_open: i64,
    grace: i64,
    now: ClockReading,
)
    requires
        0 <= baseline <= v.closed.len(),
    ensures
        billable_at(after_hint(v, false, now), baseline, baseline_open, grace, now) == billable_at(
            v,
            baseline,
            baseline_open,
            grace,
            now,
        ),
{
    if v.since is Some {
        let e = open_elapsed(v.since, now);
        let longer = v.closed.push(e);
        lemma_billable_closed_prefix(
            v.closed,
            longer,
            baseline,
            v.closed.len() as int,
            baseline_open,
            grace,
        );
        assert(longer[v.closed.len() as int] == e);
    }
}

/// Intervals no longer than the grace are wholly forgiven, however many
/// there are: forgiveness is per interval, not pooled per session.
pub proof fn lemma_short_intervals_forgiven(
    v: IdleView,
    baseline: int,
    baseline_open: i64,
    grace: i64,
    now: ClockReading,
)
    requires
        forall|j: int| baseline <= j < v.closed.len() ==> #[trigger] v.closed[j] <= grace,
        open_elapsed(v.since, now) <= grace,
    ensures
        billable_at(v, baseline, baseline_open, grace, now) == 0,
{
    lemma_short_closed_forgiven(v.closed, baseline, v.closed.len() as int, baseline_open, grace);
}

proof fn lemma_short_closed_forgiven(
    closed: Seq<i64>,
    baseline: int,
    upto: int,
    baseline_open: i64,
    grace: i64,
)
    requires
        upto <= closed.len(),
        forall|j: int| baseline <= j < closed.len() ==> #[trigger] closed[j] <= grace,
    ensures
        billable_closed(closed, baseline, upto, baseline_open, grace) == 0,
    decreases upto - baseline,
{
    if upto > baseline {
        lemma_short_closed_forgiven(closed, baseline, upto - 1, baseline_open, grace);
        assert(closed[upto - 1] <= grace);
    }
}

} // verus!
