//! Edge detection for the polled GPIO watch: the raw level is sampled in a
//! busy loop and its changes are recorded as edges. A change that does not
//! stay for the glitch filter's time is not an edge, and an edge that is
//! reported carries the time at which its level was first seen. Times are
//! nanoseconds of one monotonic clock.
use vstd::prelude::*;
use crate::hw::Level;
use crate::protocol::EdgeEventWire;

verus! {

/// The state of an edge filter.
pub struct FilterState {
    /// A change must last this long to count; 0 counts every change.
    pub minimum_stable_ns: u64,
    /// The level last accepted, once one has been seen.
    pub accepted: Option<Level>,
    /// A changed level waiting to prove stable: the level, when it was first
    /// seen, and the timestamp of that sample.
    pub candidate: Option<(Level, u64, u64)>,
}

/// Time from `since` to `now`; zero when `now` is earlier.
pub open spec fn elapsed(now: u64, since: u64) -> nat {
    if now >= since {
        (now - since) as nat
    } else {
        0
    }
}

/// The edge that a change to `level` at `timestamp_ns` makes.
pub open spec fn edge_to(level: Level, timestamp_ns: u64) -> EdgeEventWire {
    EdgeEventWire { timestamp_ns, rising: level == Level::High }
}

/// One sample of the filter: the next state, and the edge it reports.
pub open spec fn filter_step(s: FilterState, level: Level, now: u64, ts: u64) -> (
    FilterState,
    Option<EdgeEventWire>,
) {
    match s.accepted {
        None => (FilterState { accepted: Some(level), ..s }, None),
        Some(a) => if level == a {
            (FilterState { candidate: None, ..s }, None)
        } else if s.minimum_stable_ns == 0 {
            (FilterState { accepted: Some(level), ..s }, Some(edge_to(level, ts)))
        } else {
            match s.candidate {
                Some((c, since, first_ts)) => if c == level {
                    if elapsed(now, since) >= s.minimum_stable_ns {
                        (
                            FilterState { accepted: Some(level), candidate: None, ..s },
                            Some(edge_to(level, first_ts)),
                        )
                    } else {
                        (s, None)
                    }
                } else {
                    (FilterState { candidate: Some((level, now, ts)), ..s }, None)
                },
                None => (FilterState { candidate: Some((level, now, ts)), ..s }, None),
            }
        },
    }
}

/// Turns sampled levels into edges, rejecting changes shorter than a
/// minimum time.
pub struct PolledEdgeFilter {
    minimum_stable_ns: u64,
    accepted: Option<Level>,
    candidate: Option<(Level, u64, u64)>,
}

impl View for PolledEdgeFilter {
    type V = FilterState;

    closed spec fn view(&self) -> FilterState {
        FilterState {
            minimum_stable_ns: self.minimum_stable_ns,
            accepted: self.accepted,
            candidate: self.candidate,
        }
    }
}

impl PolledEdgeFilter {
    /// A filter that has seen nothing yet.
    pub fn new(minimum_stable_ns: u64) -> (r: Self)
        ensures
            r@ == (FilterState { minimum_stable_ns, accepted: None, candidate: None }),
    {
        PolledEdgeFilter { minimum_stable_ns, accepted: None, candidate: None }
    }

    /// Feeds one sample: `level` seen at `now` (clock of the loop) with
    /// `timestamp_ns` (clock reported to the client).
    pub fn observe(&mut self, level: Level, now: u64, timestamp_ns: u64) -> (r: Option<
        EdgeEventWire,
    >)
        ensures
            (final(self)@, r) == filter_step(old(self)@, level, now, timestamp_ns),
            r is Some ==> (old(self)@.accepted matches Some(a) && a != level),
            r is Some ==> final(self)@.accepted == Some(level),
            r matches Some(e) ==> e.rising == (level == Level::High),
    {
        let accepted = match self.accepted {
            None => {
                self.accepted = Some(level);
                return None;
            },
            Some(a) => a,
        };
        if level == accepted {
            self.candidate = None;
            return None;
        }
        if self.minimum_stable_ns == 0 {
            self.accepted = Some(level);
            return Some(EdgeEventWire { timestamp_ns, rising: level == Level::High });
        }
        match self.candidate {
            Some((candidate, since, edge_timestamp_ns)) if candidate == level => {
                let waited = if now >= since {
                    now - since
                } else {
                    0
                };
                if waited >= self.minimum_stable_ns {
                    self.accepted = Some(level);
                    self.candidate = None;
                    Some(EdgeEventWire { timestamp_ns: edge_timestamp_ns, rising: level == Level::High })
                } else {
                    None
                }
            },
            _ => {
                self.candidate = Some((level, now, timestamp_ns));
                None
            },
        }
    }
}

/// The level that an edge leads to.
pub open spec fn level_after(e: EdgeEventWire) -> Level {
    if e.rising {
        Level::High
    } else {
        Level::Low
    }
}

/// Consecutive edges alternate between rising and falling.
pub open spec fn alternating(events: Seq<EdgeEventWire>) -> bool {
    forall|i: int, j: int|
        #![trigger events[i], events[j]]
        0 <= i && j == i + 1 && j < events.len() ==> events[i].rising != events[j].rising
}

/// The state of a polled watch.
pub struct WatchState {
    /// The watch ends at this time, whatever happens.
    pub deadline_ns: u64,
    /// The line counts as idle after this long without an edge.
    pub idle_timeout_ns: u64,
    /// The watch ends at this time unless an edge comes first.
    pub idle_deadline_ns: u64,
    pub filter: FilterState,
    /// The edges recorded so far.
    pub events: Seq<EdgeEventWire>,
}

/// The recorded edges alternate, and the last one leads to the level that
/// the filter holds.
pub open spec fn watch_consistent(w: WatchState) -> bool {
    &&& alternating(w.events)
    &&& w.events.len() > 0 ==> w.filter.accepted == Some(level_after(w.events.last()))
}

/// The sampling loop of a polled watch: it ends when the budget is spent or
/// when no edge has come for the idle timeout, whichever is first.
pub struct PolledWatch {
    deadline_ns: u64,
    idle_timeout_ns: u64,
    idle_deadline_ns: u64,
    filter: PolledEdgeFilter,
    events: Vec<EdgeEventWire>,
}

impl View for PolledWatch {
    type V = WatchState;

    closed spec fn view(&self) -> WatchState {
        WatchState {
            deadline_ns: self.deadline_ns,
            idle_timeout_ns: self.idle_timeout_ns,
            idle_deadline_ns: self.idle_deadline_ns,
            filter: self.filter@,
            events: self.events@,
        }
    }
}

impl PolledWatch {
    /// A watch that starts at `now_ns` with a budget in milliseconds, an idle
    /// timeout and a glitch filter in microseconds.
    pub fn start(now_ns: u64, budget_ms: u64, idle_timeout_us: u64, glitch_filter_us: u64) -> (r:
        Self)
        requires
            now_ns + budget_ms * 1_000_000 <= u64::MAX,
            now_ns + idle_timeout_us * 1000 <= u64::MAX,
            glitch_filter_us * 1000 <= u64::MAX,
        ensures
            r@.deadline_ns == now_ns + budget_ms * 1_000_000,
            r@.idle_timeout_ns == idle_timeout_us * 1000,
            r@.idle_deadline_ns == now_ns + idle_timeout_us * 1000,
            r@.filter == (FilterState {
                minimum_stable_ns: (glitch_filter_us * 1000) as u64,
                accepted: None,
                candidate: None,
            }),
            r@.events == Seq::<EdgeEventWire>::empty(),
            watch_consistent(r@),
    {
        assert(budget_ms * 1_000_000 <= u64::MAX);
        assert(idle_timeout_us * 1000 <= u64::MAX);
        let idle = idle_timeout_us * 1000;
        PolledWatch {
            deadline_ns: now_ns + budget_ms * 1_000_000,
            idle_timeout_ns: idle,
            idle_deadline_ns: now_ns + idle,
            filter: PolledEdgeFilter::new(glitch_filter_us * 1000),
            events: Vec::new(),
        }
    }

    /// Whether the watch is over at `now_ns`.
    pub fn finished(&self, now_ns: u64) -> (r: bool)
        ensures
            r == (now_ns >= self@.deadline_ns || now_ns >= self@.idle_deadline_ns),
    {
        now_ns >= self.deadline_ns || now_ns >= self.idle_deadline_ns
    }

    /// Feeds one sample (see `PolledEdgeFilter::observe`). An edge is
    /// recorded and moves the idle deadline to `now_after_ns` plus the idle
    /// timeout.
    pub fn sample(&mut self, level: Level, now_ns: u64, timestamp_ns: u64, now_after_ns: u64)
        requires
            watch_consistent(old(self)@),
            now_after_ns + old(self)@.idle_timeout_ns <= u64::MAX,
        ensures
            final(self)@.filter == filter_step(old(self)@.filter, level, now_ns, timestamp_ns).0,
            final(self)@.deadline_ns == old(self)@.deadline_ns,
            final(self)@.idle_timeout_ns == old(self)@.idle_timeout_ns,
            match filter_step(old(self)@.filter, level, now_ns, timestamp_ns).1 {
                Some(e) => final(self)@.events == old(self)@.events.push(e)
                    && final(self)@.idle_deadline_ns == now_after_ns + old(self)@.idle_timeout_ns,
                None => final(self)@.events == old(self)@.events && final(self)@.idle_deadline_ns
                    == old(self)@.idle_deadline_ns,
            },
            watch_consistent(final(self)@),
    {
        let ghost before = self.events@;
        if let Some(event) = self.filter.observe(level, now_ns, timestamp_ns) {
            self.events.push(event);
            self.idle_deadline_ns = now_after_ns + self.idle_timeout_ns;
            proof {
                let ev = self.events@;
                assert forall|i: int, j: int|
                    #![trigger ev[i], ev[j]]
                    0 <= i && j == i + 1 && j < ev.len() implies ev[i].rising != ev[j].rising by {
                    if j < ev.len() - 1 {
                        assert(ev[i] == before[i] && ev[j] == before[j]);
                    } else {
                        assert(ev[i] == before.last());
                    }
                }
            }
        } else {
            proof {
                if self.events@.len() > 0 {
                    assert(self.filter@.accepted == old(self).filter@.accepted);
                }
            }
        }
    }

    /// The recorded edges.
    pub fn into_events(self) -> (r: Vec<EdgeEventWire>)
        requires
            watch_consistent(self@),
        ensures
            r@ == self@.events,
            alternating(r@),
    {
        self.events
    }
}

/// The filter state after a sequence of samples, each (level, loop time,
/// reported timestamp), first sample first.
pub open spec fn filter_run(s: FilterState, samples: Seq<(Level, u64, u64)>) -> FilterState
    decreases samples.len(),
{
    if samples.len() == 0 {
        s
    } else {
        let x = samples.last();
        filter_step(filter_run(s, samples.drop_last()), x.0, x.1, x.2).0
    }
}

/// What `observe` returns for sample `i`, after the samples before it.
pub open spec fn filter_output(s: FilterState, samples: Seq<(Level, u64, u64)>, i: int) -> Option<
    EdgeEventWire,
> {
    let x = samples[i];
    filter_step(filter_run(s, samples.take(i)), x.0, x.1, x.2).1
}

/// The state of a filter made by `PolledEdgeFilter::new(m)`.
pub open spec fn fresh_filter(m: u64) -> FilterState {
    FilterState { minimum_stable_ns: m, accepted: None, candidate: None }
}

/// The first index of the unbroken run of equal levels that ends at `i`.
pub open spec fn run_start(samples: Seq<(Level, u64, u64)>, i: int) -> int
    decreases i,
{
    if i <= 0 {
        0
    } else if samples[i - 1].0 != samples[i].0 {
        i
    } else {
        run_start(samples, i - 1)
    }
}

/// The level a fresh filter holds as accepted after the first `p` samples
/// (`p >= 1`): the first sample's level until an edge, then the level of the
/// last edge reported.
pub open spec fn reference_level(m: u64, samples: Seq<(Level, u64, u64)>, p: int) -> Level
    decreases p,
{
    if p <= 1 {
        samples[0].0
    } else {
        match filter_output(fresh_filter(m), samples, p - 1) {
            Some(e) => level_after(e),
            None => reference_level(m, samples, p - 1),
        }
    }
}

proof fn lemma_run_start_bound(samples: Seq<(Level, u64, u64)>, i: int)
    requires
        i >= 0,
    ensures
        0 <= run_start(samples, i) <= i,
    decreases i,
{
    if i > 0 {
        lemma_run_start_bound(samples, i - 1);
    }
}

proof fn lemma_run_take_step(s: FilterState, samples: Seq<(Level, u64, u64)>, p: int)
    requires
        0 <= p < samples.len(),
    ensures
        filter_run(s, samples.take(p + 1)) == filter_step(
            filter_run(s, samples.take(p)),
            samples[p].0,
            samples[p].1,
            samples[p].2,
        ).0,
{
    assert(samples.take(p + 1).drop_last() =~= samples.take(p));
    assert(samples.take(p + 1).last() == samples[p]);
}

/// What a fresh filter holds after the first `p` samples: the reference
/// level as accepted, and a candidate exactly when the latest sample differs
/// from it, the candidate then being the first sample of the latest run.
proof fn lemma_fresh_filter_state(m: u64, samples: Seq<(Level, u64, u64)>, p: int)
    requires
        1 <= p <= samples.len(),
    ensures
        ({
            let st = filter_run(fresh_filter(m), samples.take(p));
            let last = samples[p - 1];
            &&& st.minimum_stable_ns == m
            &&& st.accepted == Some(reference_level(m, samples, p))
            &&& st.candidate is None ==> last.0 == reference_level(m, samples, p)
            &&& st.candidate matches Some(c) ==> {
                &&& m > 0
                &&& c.0 == last.0
                &&& c.0 != reference_level(m, samples, p)
                &&& run_start(samples, p - 1) >= 1
                &&& c.1 == samples[run_start(samples, p - 1)].1
                &&& c.2 == samples[run_start(samples, p - 1)].2
            }
        }),
    decreases p,
{
    lemma_run_take_step(fresh_filter(m), samples, p - 1);
    if p == 1 {
        assert(samples.take(0) =~= Seq::<(Level, u64, u64)>::empty());
    } else {
        lemma_fresh_filter_state(m, samples, p - 1);
    }
}

/// The reported edges of a fresh filter: the first sample is never an edge;
/// an edge is a change away from the accepted level, rises exactly when its
/// level is high, makes that level the accepted one, and carries the
/// timestamp of the first sample of the unbroken run that it ends, a run
/// that begins after a change.
pub proof fn lemma_fresh_filter_edges(m: u64, samples: Seq<(Level, u64, u64)>, i: int)
    requires
        0 <= i < samples.len(),
    ensures
        i == 0 ==> filter_output(fresh_filter(m), samples, i) is None,
        filter_output(fresh_filter(m), samples, i) matches Some(e) ==> {
            &&& i >= 1
            &&& samples[i].0 != reference_level(m, samples, i)
            &&& e.rising == (samples[i].0 == Level::High)
            &&& reference_level(m, samples, i + 1) == samples[i].0
            &&& 1 <= run_start(samples, i) <= i
            &&& e.timestamp_ns == samples[run_start(samples, i)].2
        },
{
    if i == 0 {
        assert(samples.take(0) =~= Seq::<(Level, u64, u64)>::empty());
    } else {
        lemma_fresh_filter_state(m, samples, i);
        let st = filter_run(fresh_filter(m), samples.take(i));
        if st.candidate is Some {
            lemma_run_start_bound(samples, i - 1);
        }
    }
}

/// Between two consecutive edges, and before the first one, the accepted
/// level does not change.
proof fn lemma_reference_between_edges(
    m: u64,
    samples: Seq<(Level, u64, u64)>,
    from: int,
    to: int,
)
    requires
        1 <= from <= to <= samples.len(),
        forall|j: int| from <= j < to ==> filter_output(fresh_filter(m), samples, j) is None,
    ensures
        reference_level(m, samples, to) == reference_level(m, samples, from),
    decreases to - from,
{
    if to > from {
        lemma_reference_between_edges(m, samples, from, to - 1);
    }
}

/// The edges of a fresh filter alternate: the first one falls exactly when
/// the first sample was high, and each later one goes the other way from the
/// edge before it.
pub proof fn lemma_fresh_filter_edges_alternate(m: u64, samples: Seq<(Level, u64, u64)>, k: int)
    requires
        0 <= k < samples.len(),
        filter_output(fresh_filter(m), samples, k) is Some,
    ensures
        (forall|j: int| 0 <= j < k ==> filter_output(fresh_filter(m), samples, j) is None) ==> (
        filter_output(fresh_filter(m), samples, k)->0.rising == (samples[0].0 == Level::Low)),
        forall|i: int|
            0 <= i < k && filter_output(fresh_filter(m), samples, i) is Some && (forall|j: int|
                i < j < k ==> filter_output(fresh_filter(m), samples, j) is None) ==> filter_output(
                fresh_filter(m),
                samples,
                i,
            )->0.rising != filter_output(fresh_filter(m), samples, k)->0.rising,
{
    lemma_fresh_filter_edges(m, samples, k);
    if forall|j: int| 0 <= j < k ==> filter_output(fresh_filter(m), samples, j) is None {
        lemma_reference_between_edges(m, samples, 1, k);
    }
    assert forall|i: int|
        0 <= i < k && filter_output(fresh_filter(m), samples, i) is Some && (forall|j: int|
            i < j < k ==> filter_output(fresh_filter(m), samples, j) is None) implies filter_output(
        fresh_filter(m),
        samples,
        i,
    )->0.rising != filter_output(fresh_filter(m), samples, k)->0.rising by {
        lemma_fresh_filter_edges(m, samples, i);
        lemma_reference_between_edges(m, samples, i + 1, k);
    }
}

/// A glitch of any length is rejected: after a filter (time `m > 0`) has
/// accepted level `a`, a run of samples of the other level whose times rise
/// and span less than `m` reports no edge and keeps `a` accepted; a sample
/// of `a` after it reports no edge either and brings the filter back to
/// where it was, so a later change must again last `m` from its own first
/// sample.
pub proof fn lemma_short_run_is_rejected(
    s: FilterState,
    a: Level,
    run: Seq<(Level, u64, u64)>,
    back: (Level, u64, u64),
)
    requires
        s.minimum_stable_ns > 0,
        s.accepted == Some(a),
        s.candidate is None,
        run.len() > 0,
        forall|i: int| 0 <= i < run.len() ==> run[i].0 != a,
        forall|i: int, j: int| 0 <= i <= j < run.len() ==> run[i].1 <= run[j].1,
        run.last().1 - run[0].1 < s.minimum_stable_ns,
        back.0 == a,
    ensures
        forall|i: int| 0 <= i <= run.len() ==> filter_output(s, run.push(back), i) is None,
        forall|k: int| 1 <= k <= run.len() ==> filter_run(s, run.take(k)).accepted == Some(a),
        filter_run(s, run.push(back)) == s,
{
    let all = run.push(back);
    assert forall|k: int| 1 <= k <= run.len() implies filter_run(s, run.take(k)) == (FilterState {
        candidate: Some(run[0]),
        ..s
    }) by {
        lemma_short_run_state(s, a, run, k);
    }
    assert forall|i: int| 0 <= i <= run.len() implies filter_output(s, all, i) is None by {
        assert(all.take(i) =~= run.take(i));
        assert(all[i] == if i < run.len() { run[i] } else { back });
        if i == 0 {
            assert(run.take(0) =~= Seq::<(Level, u64, u64)>::empty());
        } else {
            lemma_short_run_state(s, a, run, i);
        }
    }
    assert(all.drop_last() =~= run.take(run.len() as int));
    assert(run.take(run.len() as int) =~= run);
    lemma_short_run_state(s, a, run, run.len() as int);
}

proof fn lemma_short_run_state(s: FilterState, a: Level, run: Seq<(Level, u64, u64)>, k: int)
    requires
        s.minimum_stable_ns > 0,
        s.accepted == Some(a),
        s.candidate is None,
        1 <= k <= run.len(),
        forall|i: int| 0 <= i < run.len() ==> run[i].0 != a,
        forall|i: int, j: int| 0 <= i <= j < run.len() ==> run[i].1 <= run[j].1,
        run.last().1 - run[0].1 < s.minimum_stable_ns,
    ensures
        filter_run(s, run.take(k)) == (FilterState { candidate: Some(run[0]), ..s }),
    decreases k,
{
    lemma_run_take_step(s, run, k - 1);
    if k == 1 {
        assert(run.take(0) =~= Seq::<(Level, u64, u64)>::empty());
    } else {
        lemma_short_run_state(s, a, run, k - 1);
        assert(run[0].1 <= run[k - 1].1 <= run.last().1);
    }
}

/// The first sample only sets the reference level; it is never an edge.
pub proof fn lemma_first_sample_is_no_edge(min: u64, level: Level, now: u64, ts: u64)
    ensures
        filter_step(FilterState { minimum_stable_ns: min, accepted: None, candidate: None }, level, now, ts).1
            is None,
{
}

/// Without a glitch filter, every change of level is an edge at the
/// timestamp of the sample that shows it.
pub proof fn lemma_unfiltered_change_is_edge(s: FilterState, level: Level, now: u64, ts: u64)
    requires
        s.minimum_stable_ns == 0,
        s.accepted matches Some(a) && a != level,
    ensures
        filter_step(s, level, now, ts).1 == Some(edge_to(level, ts)),
        filter_step(s, level, now, ts).0.accepted == Some(level),
{
}

/// A glitch is rejected: with a filter, a change seen once and then undone
/// yields no edge, and the filter is back where it was, whatever the times.
pub proof fn lemma_glitch_is_rejected(
    s: FilterState,
    a: Level,
    b: Level,
    t0: u64,
    ts0: u64,
    t1: u64,
    ts1: u64,
)
    requires
        s.minimum_stable_ns > 0,
        s.accepted == Some(a),
        s.candidate is None,
        a != b,
    ensures
        ({
            let (s1, e1) = filter_step(s, b, t0, ts0);
            let (s2, e2) = filter_step(s1, a, t1, ts1);
            e1 is None && e2 is None && s2 == s
        }),
{
}

/// A change that stays for the filter's time is one edge, reported with the
/// timestamp of the sample that first showed it.
pub proof fn lemma_stable_change_keeps_first_timestamp(
    s: FilterState,
    a: Level,
    b: Level,
    t0: u64,
    ts0: u64,
    t1: u64,
    ts1: u64,
)
    requires
        s.minimum_stable_ns > 0,
        s.accepted == Some(a),
        s.candidate is None,
        a != b,
        t1 >= t0,
        t1 - t0 >= s.minimum_stable_ns,
    ensures
        ({
            let (s1, e1) = filter_step(s, b, t0, ts0);
            let (s2, e2) = filter_step(s1, b, t1, ts1);
            e1 is None && e2 == Some(edge_to(b, ts0)) && s2.accepted == Some(b) && s2.candidate
                is None
        }),
{
}

/// A change that has not yet lasted the filter's time is not an edge yet.
pub proof fn lemma_short_change_is_pending(
    s: FilterState,
    a: Level,
    b: Level,
    t0: u64,
    ts0: u64,
    t1: u64,
    ts1: u64,
)
    requires
        s.minimum_stable_ns > 0,
        s.accepted == Some(a),
        s.candidate is None,
        a != b,
        elapsed(t1, t0) < s.minimum_stable_ns,
    ensures
        ({
            let (s1, e1) = filter_step(s, b, t0, ts0);
            let (s2, e2) = filter_step(s1, b, t1, ts1);
            e1 is None && e2 is None && s2.accepted == Some(a) && s2.candidate == Some((b, t0, ts0))
        }),
{
}

} // verus!
