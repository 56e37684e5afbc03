use vstd::prelude::*;

use crate::models::UsageSession;
use crate::text::{lower_of, lowercase, same_text, starts_with_text};

verus! {

/// Shortest interval, in milliseconds, that counts as a session.
pub const MIN_SESSION_MS: i64 = 5_000;

/// Widest gap, in milliseconds, across which two intervals of one package merge.
pub const MERGE_GAP_MS: i64 = 10_000;

/// Longest session, in milliseconds (eight hours); longer ones are clipped.
pub const MAX_SESSION_MS: i64 = 28_800_000;

/// Cadence of the foreground sampler, in milliseconds.
pub const SAMPLE_INTERVAL_MS: u64 = 5_000;

/// A finished foreground interval before merging; instants in milliseconds.
#[derive(Debug)]
pub struct RawSession {
    pub package: String,
    pub start: i64,
    pub end: i64,
}

impl Clone for RawSession {
    fn clone(&self) -> (r: Self)
        ensures
            r == *self,
    {
        RawSession { package: self.package.clone(), start: self.start, end: self.end }
    }
}

/// The application that currently holds the foreground.
#[derive(Debug)]
pub struct ActiveSession {
    pub package: String,
    pub started_at: i64,
    pub last_seen: i64,
}

impl Clone for ActiveSession {
    fn clone(&self) -> (r: Self)
        ensures
            r == *self,
    {
        ActiveSession {
            package: self.package.clone(),
            started_at: self.started_at,
            last_seen: self.last_seen,
        }
    }
}

// ---------------------------------------------------------------------------
// Package filter

pub open spec fn is_blocked_name(p: Seq<char>) -> bool {
    ||| p == "explorer.exe"@
    ||| p == "systemsettings.exe"@
    ||| p == "taskmgr.exe"@
    ||| p == "searchui.exe"@
    ||| p == "sihost.exe"@
}

pub open spec fn has_blocked_prefix(p: Seq<char>) -> bool {
    ||| "fontdrvhost"@.is_prefix_of(p)
    ||| "applicationframehost"@.is_prefix_of(p)
    ||| "shellexperiencehost"@.is_prefix_of(p)
    ||| "startmenuexperiencehost"@.is_prefix_of(p)
}

/// A lower-case package name is tracked when it is non-empty, is none of the
/// shell's own executables and starts with none of the shell host prefixes.
pub open spec fn is_tracked(p: Seq<char>) -> bool {
    p.len() > 0 && !is_blocked_name(p) && !has_blocked_prefix(p)
}

fn is_tracked_name(package: &str) -> (r: bool)
    ensures
        r == is_tracked(package@),
{
    if package.unicode_len() == 0 {
        return false;
    }
    if same_text(package, "explorer.exe") || same_text(package, "systemsettings.exe")
        || same_text(package, "taskmgr.exe") || same_text(package, "searchui.exe")
        || same_text(package, "sihost.exe") {
        return false;
    }
    if starts_with_text(package, "fontdrvhost") || starts_with_text(package, "applicationframehost")
        || starts_with_text(package, "shellexperiencehost") || starts_with_text(
        package,
        "startmenuexperiencehost",
    ) {
        return false;
    }
    true
}

/// Whether a package is tracked; the shell names are matched case-insensitively.
pub fn should_track(package: &str) -> (r: bool)
    ensures
        r == is_tracked(lower_of(package@)),
{
    let lowered = lowercase(package);
    is_tracked_name(lowered.as_str())
}

/// Turns the executable name that owns the foreground into the observed
/// package: lower-cased, and absent when the filter rejects it.
pub fn observed_package(image_name: &str) -> (r: Option<String>)
    ensures
        is_tracked(lower_of(image_name@)) ==> (r matches Some(p) && p@ == lower_of(image_name@)),
        !is_tracked(lower_of(image_name@)) ==> r is None,
{
    let lowered = lowercase(image_name);
    if is_tracked_name(lowered.as_str()) {
        Some(lowered)
    } else {
        None
    }
}

// ---------------------------------------------------------------------------
// Tracker state machine

pub ghost struct TrackerView {
    pub current: Option<ActiveSession>,
    pub completed: Seq<RawSession>,
}

/// What closing an active interval yields: the interval up to
/// `max(last_seen, started_at)`, kept only if it lasted the minimum.
pub open spec fn finalized(a: ActiveSession) -> Option<RawSession> {
    let end = if a.last_seen < a.started_at {
        a.started_at
    } else {
        a.last_seen
    };
    if end - a.started_at >= MIN_SESSION_MS {
        Some(RawSession { package: a.package, start: a.started_at, end })
    } else {
        None
    }
}

/// The completed list after closing `current`, if any.
pub open spec fn close_current(
    current: Option<ActiveSession>,
    completed: Seq<RawSession>,
) -> Seq<RawSession> {
    match current {
        Some(a) => match finalized(a) {
            Some(r) => completed.push(r),
            None => completed,
        },
        None => completed,
    }
}

pub open spec fn fresh_active(p: String, now: i64) -> ActiveSession {
    ActiveSession { package: p, started_at: now, last_seen: now }
}

/// One sample's transition on `(active, observed)`.
pub open spec fn observe_spec(v: TrackerView, package: Option<String>, now: i64) -> TrackerView {
    match (v.current, package) {
        (None, None) => v,
        (None, Some(p)) => TrackerView { current: Some(fresh_active(p, now)), completed: v.completed },
        (Some(a), Some(p)) => if a.package@ == p@ {
            TrackerView {
                current: Some(ActiveSession { package: a.package, started_at: a.started_at, last_seen: now }),
                completed: v.completed,
            }
        } else {
            TrackerView {
                current: Some(fresh_active(p, now)),
                completed: close_current(v.current, v.completed),
            }
        },
        (Some(a), None) => TrackerView {
            current: None,
            completed: close_current(v.current, v.completed),
        },
    }
}

/// Completed intervals that end at or after `cutoff`, in order.
pub open spec fn within_cutoff(s: Seq<RawSession>, cutoff: int) -> Seq<RawSession>
    decreases s.len(),
{
    if s.len() == 0 {
        s
    } else if s.last().end >= cutoff {
        within_cutoff(s.drop_last(), cutoff).push(s.last())
    } else {
        within_cutoff(s.drop_last(), cutoff)
    }
}

/// Whether a drain at `now` closes the active interval: idle for more than the merge gap.
pub open spec fn is_stale(v: TrackerView, now: i64) -> bool {
    v.current matches Some(a) && now - a.last_seen > MERGE_GAP_MS
}

/// The intervals a drain hands out: the completed ones within the window,
/// then the stale active interval if it survives finalization and the window.
pub open spec fn drained(v: TrackerView, now: i64, window_ms: i64) -> Seq<RawSession> {
    let cutoff = now - window_ms;
    let kept = within_cutoff(v.completed, cutoff);
    if is_stale(v, now) {
        match finalized(v.current->0) {
            Some(r) => if r.end >= cutoff {
                kept.push(r)
            } else {
                kept
            },
            None => kept,
        }
    } else {
        kept
    }
}

/// The tracker after a drain: everything drained is consumed, and a stale
/// active interval is closed.
pub open spec fn after_drain(v: TrackerView, now: i64) -> TrackerView {
    TrackerView {
        current: if is_stale(v, now) {
            None
        } else {
            v.current
        },
        completed: Seq::empty(),
    }
}

/// The foreground tracker: the active interval and the closed ones not yet drained.
pub struct TrackerState {
    pub current: Option<ActiveSession>,
    pub completed: Vec<RawSession>,
}

impl View for TrackerState {
    type V = TrackerView;

    open spec fn view(&self) -> TrackerView {
        TrackerView { current: self.current, completed: self.completed@ }
    }
}

impl TrackerState {
    pub fn new() -> (r: Self)
        ensures
            r@.current is None,
            r@.completed.len() == 0,
    {
        TrackerState { current: None, completed: Vec::new() }
    }

    pub fn finalize_current(&mut self)
        ensures
            final(self)@.current is None,
            final(self)@.completed == close_current(old(self)@.current, old(self)@.completed),
    {
        let taken = self.current.take();
        if let Some(active) = taken {
            let end = if active.last_seen < active.started_at {
                active.started_at
            } else {
                active.last_seen
            };
            if end as i128 - active.started_at as i128 >= MIN_SESSION_MS as i128 {
                self.completed.push(
                    RawSession { package: active.package, start: active.started_at, end },
                );
            }
        }
    }

    /// Feeds one sample: the observed package at instant `now`, or none.
    pub fn observe(&mut self, package: Option<String>, now: i64)
        ensures
            final(self)@ == observe_spec(old(self)@, package, now),
    {
        let same = match (&self.current, &package) {
            (Some(active), Some(pkg)) => active.package == *pkg,
            _ => false,
        };
        match package {
            Some(pkg) => {
                if same {
                    let mut active = self.current.take().unwrap();
                    active.last_seen = now;
                    self.current = Some(active);
                } else {
                    self.finalize_current();
                    self.current = Some(ActiveSession { package: pkg, started_at: now, last_seen: now });
                }
            },
            None => {
                if self.current.is_some() {
                    self.finalize_current();
                }
            },
        }
    }

    /// Hands out the intervals within `window_ms` before `now` and consumes them.
    pub fn drain(&mut self, now: i64, window_ms: i64) -> (r: Vec<RawSession>)
        ensures
            r@ == drained(old(self)@, now, window_ms),
            final(self)@ == after_drain(old(self)@, now),
    {
        let cutoff: i128 = now as i128 - window_ms as i128;
        let mut sessions: Vec<RawSession> = Vec::new();
        let mut i: usize = 0;
        let n = self.completed.len();
        while i < n
            invariant
                n == self.completed@.len(),
                i <= n,
                cutoff == now - window_ms,
                sessions@ == within_cutoff(self.completed@.subrange(0, i as int), cutoff as int),
            decreases n - i,
        {
            proof {
                assert(self.completed@.subrange(0, i + 1).drop_last() =~= self.completed@.subrange(
                    0,
                    i as int,
                ));
            }
            if self.completed[i].end as i128 >= cutoff {
                sessions.push(self.completed[i].clone());
            }
            i = i + 1;
        }
        assert(self.completed@.subrange(0, n as int) =~= self.completed@);
        let ghost v = self@;
        self.completed = Vec::new();
        let stale = match &self.current {
            Some(active) => now as i128 - active.last_seen as i128 > MERGE_GAP_MS as i128,
            None => false,
        };
        if stale {
            let before = self.completed.len();
            self.finalize_current();
            if self.completed.len() > before {
                let last = self.completed[before].clone();
                if last.end as i128 >= cutoff {
                    sessions.push(last);
                }
            }
            self.completed = Vec::new();
        }
        assert(self@.completed =~= Seq::<RawSession>::empty());
        sessions
    }
}

// ---------------------------------------------------------------------------
// Sorting, merging and converting

/// Inserts `x` after every interval that starts no later than it (stable).
pub open spec fn insert_by_start(s: Seq<RawSession>, x: RawSession) -> Seq<RawSession>
    decreases s.len(),
{
    if s.len() == 0 {
        seq![x]
    } else if s.last().start <= x.start {
        s.push(x)
    } else {
        insert_by_start(s.drop_last(), x).push(s.last())
    }
}

/// Stable sort by start instant.
pub open spec fn sort_by_start(s: Seq<RawSession>) -> Seq<RawSession>
    decreases s.len(),
{
    if s.len() == 0 {
        s
    } else {
        insert_by_start(sort_by_start(s.drop_last()), s.last())
    }
}

/// One sweep over sorted intervals: an interval of the same package that
/// starts within the merge gap after the previous one ends extends it.
pub open spec fn merge_sorted(s: Seq<RawSession>) -> Seq<RawSession>
    decreases s.len(),
{
    if s.len() == 0 {
        s
    } else {
        let m = merge_sorted(s.drop_last());
        let x = s.last();
        if m.len() > 0 && m.last().package@ == x.package@ && x.start - m.last().end <= MERGE_GAP_MS {
            if x.end > m.last().end {
                m.update(
                    m.len() - 1,
                    RawSession { package: m.last().package, start: m.last().start, end: x.end },
                )
            } else {
                m
            }
        } else {
            m.push(x)
        }
    }
}

pub open spec fn clipped_end(r: RawSession) -> int {
    if r.end - r.start > MAX_SESSION_MS {
        r.start + MAX_SESSION_MS
    } else {
        r.end as int
    }
}

pub open spec fn as_usage(r: RawSession) -> UsageSession {
    UsageSession {
        package: r.package,
        window_start: r.start,
        window_end: clipped_end(r) as i64,
        total_ms: (clipped_end(r) - r.start) as u64,
        foreground: true,
    }
}

/// Drops intervals shorter than the minimum and clips the rest to the maximum.
pub open spec fn finish(s: Seq<RawSession>) -> Seq<UsageSession>
    decreases s.len(),
{
    if s.len() == 0 {
        Seq::empty()
    } else if s.last().end - s.last().start < MIN_SESSION_MS {
        finish(s.drop_last())
    } else {
        finish(s.drop_last()).push(as_usage(s.last()))
    }
}

/// The bounds every emitted session keeps.
pub open spec fn well_bounded(u: UsageSession) -> bool {
    &&& MIN_SESSION_MS <= u.total_ms <= MAX_SESSION_MS
    &&& u.window_end - u.window_start == u.total_ms
    &&& u.foreground
}

pub open spec fn sorted_by_start(s: Seq<RawSession>) -> bool {
    forall|i: int, j: int| 0 <= i < j < s.len() ==> s[i].start <= s[j].start
}

/// Emitted sessions in order of their start.
pub open spec fn sorted_by_window_start(s: Seq<UsageSession>) -> bool {
    forall|i: int, j: int| 0 <= i < j < s.len() ==> s[i].window_start <= s[j].window_start
}

proof fn lemma_insert_sorted(s: Seq<RawSession>, x: RawSession)
    requires
        sorted_by_start(s),
    ensures
        sorted_by_start(insert_by_start(s, x)),
        insert_by_start(s, x).len() == s.len() + 1,
        forall|i: int|
            0 <= i < insert_by_start(s, x).len() ==> (#[trigger] insert_by_start(s, x)[i]).start
                == x.start || exists|j: int|
                0 <= j < s.len() && s[j].start == insert_by_start(s, x)[i].start,
    decreases s.len(),
{
    if s.len() > 0 && s.last().start > x.start {
        let d = s.drop_last();
        lemma_insert_sorted(d, x);
        let r = insert_by_start(d, x);
        assert forall|i: int| 0 <= i < r.len() implies r[i].start <= s.last().start by {
            if r[i].start != x.start {
                let j = choose|j: int| 0 <= j < d.len() && d[j].start == r[i].start;
                assert(s[j] == d[j]);
            }
        }
        assert forall|i: int|
            0 <= i < insert_by_start(s, x).len() implies (#[trigger] insert_by_start(s, x)[i]).start
            == x.start || exists|j: int| 0 <= j < s.len() && s[j].start == insert_by_start(s, x)[i].start by {
            if i < r.len() && r[i].start != x.start {
                let j = choose|j: int| 0 <= j < d.len() && d[j].start == r[i].start;
                assert(s[j] == d[j]);
            } else if i == r.len() {
                assert(s[s.len() - 1].start == insert_by_start(s, x)[i].start);
            }
        }
    } else if s.len() > 0 {
        assert forall|i: int|
            0 <= i < insert_by_start(s, x).len() implies (#[trigger] insert_by_start(s, x)[i]).start
            == x.start || exists|j: int| 0 <= j < s.len() && s[j].start == insert_by_start(s, x)[i].start by {
            if i < s.len() {
                assert(s[i].start == insert_by_start(s, x)[i].start);
            }
        }
    }
}

proof fn lemma_sort_sorted(s: Seq<RawSession>)
    ensures
        sorted_by_start(sort_by_start(s)),
    decreases s.len(),
{
    if s.len() > 0 {
        lemma_sort_sorted(s.drop_last());
        lemma_insert_sorted(sort_by_start(s.drop_last()), s.last());
    }
}

proof fn lemma_merge_sorted(s: Seq<RawSession>)
    requires
        sorted_by_start(s),
    ensures
        sorted_by_start(merge_sorted(s)),
        s.len() > 0 ==> forall|i: int|
            0 <= i < merge_sorted(s).len() ==> (#[trigger] merge_sorted(s)[i]).start <= s.last().start,
        s.len() == 0 ==> merge_sorted(s).len() == 0,
    decreases s.len(),
{
    if s.len() > 0 {
        let d = s.drop_last();
        lemma_merge_sorted(d);
        if d.len() > 0 {
            assert(d.last().start <= s.last().start);
        }
    }
}

proof fn lemma_finish_sorted(s: Seq<RawSession>)
    requires
        sorted_by_start(s),
    ensures
        sorted_by_window_start(finish(s)),
        s.len() > 0 ==> forall|i: int|
            0 <= i < finish(s).len() ==> (#[trigger] finish(s)[i]).window_start <= s.last().start,
        s.len() == 0 ==> finish(s).len() == 0,
    decreases s.len(),
{
    if s.len() > 0 {
        let d = s.drop_last();
        lemma_finish_sorted(d);
        if d.len() > 0 {
            assert(d.last().start <= s.last().start);
        }
    }
}

/// The sessions a merge emits come in order of their start.
pub proof fn lemma_emitted_sessions_sorted(raw: Seq<RawSession>)
    ensures
        sorted_by_window_start(finish(merge_sorted(sort_by_start(raw)))),
{
    lemma_sort_sorted(raw);
    lemma_merge_sorted(sort_by_start(raw));
    lemma_finish_sorted(merge_sorted(sort_by_start(raw)));
}

proof fn lemma_insert_at(s: Seq<RawSession>, x: RawSession, k: int)
    requires
        0 <= k <= s.len(),
        forall|j: int| k <= j < s.len() ==> s[j].start > x.start,
        k == 0 || s[k - 1].start <= x.start,
    ensures
        insert_by_start(s, x) == s.insert(k, x),
    decreases s.len(),
{
    if s.len() == 0 {
        assert(s.insert(k, x) =~= seq![x]);
    } else if s.last().start <= x.start {
        assert(k == s.len());
        assert(s.insert(k, x) =~= s.push(x));
    } else {
        assert(k < s.len());
        lemma_insert_at(s.drop_last(), x, k);
        assert(s.drop_last().insert(k, x).push(s.last()) =~= s.insert(k, x));
    }
}

fn insert_sorted(sorted: &mut Vec<RawSession>, x: RawSession)
    ensures
        final(sorted)@ == insert_by_start(old(sorted)@, x),
{
    let mut p = sorted.len();
    while p > 0 && sorted[p - 1].start > x.start
        invariant
            p <= sorted@.len(),
            forall|j: int| p <= j < sorted@.len() ==> sorted@[j].start > x.start,
        decreases p,
    {
        p = p - 1;
    }
    proof {
        lemma_insert_at(sorted@, x, p as int);
    }
    sorted.insert(p, x);
}

/// Sorts by start, merges across short gaps, drops short intervals and clips
/// long ones; every emitted session keeps the duration bounds.
pub fn merge_and_convert(raw: Vec<RawSession>) -> (r: Vec<UsageSession>)
    ensures
        r@ == finish(merge_sorted(sort_by_start(raw@))),
        forall|i: int| 0 <= i < r@.len() ==> #[trigger] well_bounded(r@[i]),
        sorted_by_window_start(r@),
{
    proof {
        lemma_emitted_sessions_sorted(raw@);
    }
    let mut sorted: Vec<RawSession> = Vec::new();
    let n = raw.len();
    let mut i: usize = 0;
    while i < n
        invariant
            n == raw@.len(),
            i <= n,
            sorted@ == sort_by_start(raw@.subrange(0, i as int)),
        decreases n - i,
    {
        assert(raw@.subrange(0, i + 1).drop_last() =~= raw@.subrange(0, i as int));
        insert_sorted(&mut sorted, raw[i].clone());
        i = i + 1;
    }
    assert(raw@.subrange(0, n as int) =~= raw@);

    let mut merged: Vec<RawSession> = Vec::new();
    let m = sorted.len();
    let mut i: usize = 0;
    while i < m
        invariant
            m == sorted@.len(),
            i <= m,
            merged@ == merge_sorted(sorted@.subrange(0, i as int)),
        decreases m - i,
    {
        assert(sorted@.subrange(0, i + 1).drop_last() =~= sorted@.subrange(0, i as int));
        let session = sorted[i].clone();
        let k = merged.len();
        if k > 0 && merged[k - 1].package == session.package && session.start as i128
            - merged[k - 1].end as i128 <= MERGE_GAP_MS as i128 {
            if session.end > merged[k - 1].end {
                let mut last = merged[k - 1].clone();
                last.end = session.end;
                merged.set(k - 1, last);
            }
        } else {
            merged.push(session);
        }
        i = i + 1;
    }
    assert(sorted@.subrange(0, m as int) =~= sorted@);

    let mut out: Vec<UsageSession> = Vec::new();
    let q = merged.len();
    let mut i: usize = 0;
    while i < q
        invariant
            q == merged@.len(),
            i <= q,
            out@ == finish(merged@.subrange(0, i as int)),
            forall|j: int| 0 <= j < out@.len() ==> #[trigger] well_bounded(out@[j]),
        decreases q - i,
    {
        assert(merged@.subrange(0, i + 1).drop_last() =~= merged@.subrange(0, i as int));
        let s = merged[i].clone();
        let dur: i128 = s.end as i128 - s.start as i128;
        if dur >= MIN_SESSION_MS as i128 {
            let end: i64 = if dur > MAX_SESSION_MS as i128 {
                s.start + MAX_SESSION_MS
            } else {
                s.end
            };
            let total = (end as i128 - s.start as i128) as u64;
            let u = UsageSession {
                package: s.package,
                window_start: s.start,
                window_end: end,
                total_ms: total,
                foreground: true,
            };
            assert(well_bounded(u));
            out.push(u);
        }
        i = i + 1;
    }
    assert(merged@.subrange(0, q as int) =~= merged@);
    out
}

/// The tracker behind the foreground sampler.
pub struct SessionCollector {
    pub state: TrackerState,
}

impl SessionCollector {
    pub fn new() -> (r: Self)
        ensures
            r.state@.current is None,
            r.state@.completed.len() == 0,
    {
        SessionCollector { state: TrackerState::new() }
    }

    /// Records one sample of the foreground package taken at `now`.
    pub fn sample_once(&mut self, package: Option<String>, now: i64)
        ensures
            final(self).state@ == observe_spec(old(self).state@, package, now),
    {
        self.state.observe(package, now);
    }

    /// Drains the tracker at `now` over the window and merges the result.
    pub fn drain_sessions(&mut self, now: i64, window_ms: i64) -> (r: Vec<UsageSession>)
        ensures
            r@ == finish(merge_sorted(sort_by_start(drained(old(self).state@, now, window_ms)))),
            final(self).state@ == after_drain(old(self).state@, now),
            forall|i: int| 0 <= i < r@.len() ==> #[trigger] well_bounded(r@[i]),
            sorted_by_window_start(r@),
    {
        let raw = self.state.drain(now, window_ms);
        merge_and_convert(raw)
    }
}

} // verus!
