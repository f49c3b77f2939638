//! Reference-count leak detection.
//!
//! The detector keeps a set of labelled handles (in the server, weak
//! references to shared structures) together with the strong count seen at
//! the last sample.  Every `sample_interval` ticks it samples each handle:
//! released handles are dropped, handles whose count changed restart their
//! grace timer, and handles whose count stayed above one for longer than
//! the grace period are reported.

use vstd::prelude::*;

verus! {

/// Nanoseconds in one server tick at 20 ticks per second.
pub const NANOS_PER_TICK: u64 = 50_000_000;

/// A watched handle together with what was seen at the last sample.
pub struct TrackedResource<H> {
    /// Human-readable label, unique among tracked resources.
    label: &'static str,
    /// The handle whose strong count is sampled.
    handle: H,
    /// Strong count observed at the last sample.
    snapshot_count: usize,
    /// Time (nanoseconds) at which the resource was first seen in a
    /// possibly-leaked state, if it is in one.
    first_seen: Option<u64>,
}

/// A resource reported as a possible leak.
#[derive(Debug, Clone, Copy, PartialEq, Eq)]
pub struct LeakWarning {
    pub label: &'static str,
    /// Strong count observed when the warning was raised.
    pub strong_count: usize,
}

/// What sampling one resource decided.
#[derive(Debug, Clone, Copy, PartialEq, Eq, Structural)]
pub enum SampleOutcome {
    /// The handle was released; the entry is dropped.
    Released,
    /// The entry stays with a new snapshot and grace timer; `warn` says
    /// whether it is reported now.
    Kept { snapshot_count: usize, first_seen: Option<u64>, warn: bool },
}

/// The decision for one resource whose last snapshot was `snapshot_count`
/// and grace timer `first_seen`, when its strong count reads `alive_count`
/// and then `current_count` at time `now`.
pub open spec fn sample_spec(
    snapshot_count: usize,
    first_seen: Option<u64>,
    alive_count: usize,
    current_count: usize,
    now: u64,
    grace_nanos: u64,
) -> SampleOutcome {
    if alive_count == 0 {
        SampleOutcome::Released
    } else if current_count == snapshot_count && current_count > 1 {
        match first_seen {
            None => SampleOutcome::Kept {
                snapshot_count: current_count,
                first_seen: Some(now),
                warn: false,
            },
            Some(first) => {
                if now - first > grace_nanos {
                    SampleOutcome::Kept {
                        snapshot_count: current_count,
                        first_seen: Some(now),
                        warn: true,
                    }
                } else {
                    SampleOutcome::Kept {
                        snapshot_count: current_count,
                        first_seen: Some(first),
                        warn: false,
                    }
                }
            },
        }
    } else {
        SampleOutcome::Kept { snapshot_count: current_count, first_seen: None, warn: false }
    }
}

/// Decide what sampling one resource does (see [`sample_spec`]).
pub fn sample_resource(
    snapshot_count: usize,
    first_seen: Option<u64>,
    alive_count: usize,
    current_count: usize,
    now: u64,
    grace_nanos: u64,
) -> (o: SampleOutcome)
    ensures
        o == sample_spec(snapshot_count, first_seen, alive_count, current_count, now, grace_nanos),
{
    if alive_count == 0 {
        return SampleOutcome::Released;
    }
    if current_count == snapshot_count && current_count > 1 {
        match first_seen {
            None => SampleOutcome::Kept {
                snapshot_count: current_count,
                first_seen: Some(now),
                warn: false,
            },
            Some(first) => {
                let elapsed = if now >= first {
                    now - first
                } else {
                    0
                };
                if elapsed > grace_nanos {
                    SampleOutcome::Kept {
                        snapshot_count: current_count,
                        first_seen: Some(now),
                        warn: true,
                    }
                } else {
                    SampleOutcome::Kept {
                        snapshot_count: current_count,
                        first_seen: Some(first),
                        warn: false,
                    }
                }
            },
        }
    } else {
        SampleOutcome::Kept { snapshot_count: current_count, first_seen: None, warn: false }
    }
}

/// The plain view of one tracked entry: label, snapshot, grace timer.
pub type EntryView = (Seq<char>, usize, Option<u64>);

/// One sampling pass over `entries`, where entry `i` read strong counts
/// `counts[i]`: the entries kept (in order) and the warnings raised.
pub open spec fn sweep(
    entries: Seq<EntryView>,
    counts: Seq<(usize, usize)>,
    now: u64,
    grace_nanos: u64,
) -> (Seq<EntryView>, Seq<(Seq<char>, usize)>)
    decreases entries.len(),
{
    if entries.len() == 0 || counts.len() != entries.len() {
        (seq![], seq![])
    } else {
        let (kept, warned) = sweep(entries.drop_last(), counts.drop_last(), now, grace_nanos);
        let e = entries.last();
        let c = counts.last();
        match sample_spec(e.1, e.2, c.0, c.1, now, grace_nanos) {
            SampleOutcome::Released => (kept, warned),
            SampleOutcome::Kept { snapshot_count, first_seen, warn } => (
                kept.push((e.0, snapshot_count, first_seen)),
                if warn {
                    warned.push((e.0, snapshot_count))
                } else {
                    warned
                },
            ),
        }
    }
}

/// Whether `counts` holds, for each handle in turn, two strong counts that
/// `strong_count` may return for it.
pub open spec fn read_by<H, F: Fn(&H) -> usize>(
    strong_count: F,
    handles: Seq<H>,
    counts: Seq<(usize, usize)>,
) -> bool {
    forall|k: int|
        0 <= k < counts.len() ==> call_ensures(strong_count, (&handles[k],), #[trigger] counts[k].0)
            && call_ensures(strong_count, (&handles[k],), counts[k].1)
}

/// The handles of stored resources.
pub closed spec fn handles_of<H>(s: Seq<TrackedResource<H>>) -> Seq<H> {
    s.map_values(|r: TrackedResource<H>| r.handle)
}

/// The handles `sweep` keeps: those of the entries it keeps, in order.
pub open spec fn sweep_handles<H>(
    handles: Seq<H>,
    entries: Seq<EntryView>,
    counts: Seq<(usize, usize)>,
    now: u64,
    grace_nanos: u64,
) -> Seq<H>
    decreases entries.len(),
{
    if entries.len() == 0 || counts.len() != entries.len() || handles.len() != entries.len() {
        seq![]
    } else {
        let kept = sweep_handles(
            handles.drop_last(),
            entries.drop_last(),
            counts.drop_last(),
            now,
            grace_nanos,
        );
        let e = entries.last();
        let c = counts.last();
        match sample_spec(e.1, e.2, c.0, c.1, now, grace_nanos) {
            SampleOutcome::Released => kept,
            SampleOutcome::Kept { .. } => kept.push(handles.last()),
        }
    }
}

/// The plain view of stored resources.
pub closed spec fn entries_view<H>(s: Seq<TrackedResource<H>>) -> Seq<EntryView> {
    s.map_values(|r: TrackedResource<H>| (r.label@, r.snapshot_count, r.first_seen))
}

/// The plain view of warnings: label characters and count.
pub open spec fn warnings_view(s: Seq<LeakWarning>) -> Seq<(Seq<char>, usize)> {
    s.map_values(|w: LeakWarning| (w.label@, w.strong_count))
}

/// The labels of a sequence of entries.
pub open spec fn labels(entries: Seq<EntryView>) -> Seq<Seq<char>> {
    entries.map_values(|e: EntryView| e.0)
}

/// Whether `tick` number `tick` samples, for a given interval.
pub open spec fn samples_at(tick: u64, sample_interval: u32) -> bool {
    if sample_interval == 0 {
        tick as u32 == 0
    } else {
        (tick as u32) % sample_interval == 0
    }
}

/// Sampling keeps only entries that were there, so distinct labels stay
/// distinct.
pub proof fn lemma_sweep_labels(
    entries: Seq<EntryView>,
    counts: Seq<(usize, usize)>,
    now: u64,
    grace_nanos: u64,
)
    requires
        labels(entries).no_duplicates(),
    ensures
        labels(sweep(entries, counts, now, grace_nanos).0).no_duplicates(),
        forall|j: int|
            0 <= j < sweep(entries, counts, now, grace_nanos).0.len() ==> labels(entries).contains(
                #[trigger] sweep(entries, counts, now, grace_nanos).0[j].0,
            ),
        sweep(entries, counts, now, grace_nanos).0.len() <= entries.len(),
    decreases entries.len(),
{
    if entries.len() == 0 || counts.len() != entries.len() {
        assert(labels(sweep(entries, counts, now, grace_nanos).0) =~= Seq::<Seq<char>>::empty());
    } else {
        let init = entries.drop_last();
        assert(labels(init) =~= labels(entries).drop_last());
        assert forall|i: int, j: int|
            0 <= i < labels(init).len() && 0 <= j < labels(init).len() && i != j implies labels(
                init,
            )[i] != labels(init)[j] by {
            assert(labels(init)[i] == labels(entries)[i]);
            assert(labels(init)[j] == labels(entries)[j]);
        }
        lemma_sweep_labels(init, counts.drop_last(), now, grace_nanos);
        let (kept, warned) = sweep(init, counts.drop_last(), now, grace_nanos);
        let e = entries.last();
        let last = entries.len() - 1;
        assert(labels(entries)[last] == e.0);
        assert(!labels(init).contains(e.0)) by {
            if labels(init).contains(e.0) {
                let k = choose|k: int| 0 <= k < labels(init).len() && labels(init)[k] == e.0;
                assert(labels(entries)[k] == e.0);
            }
        }
        assert forall|j: int| 0 <= j < kept.len() implies labels(entries).contains(
            #[trigger] kept[j].0,
        ) by {
            let k = choose|k: int| 0 <= k < labels(init).len() && labels(init)[k] == kept[j].0;
            assert(labels(entries)[k] == kept[j].0);
        }
        let c = counts.last();
        match sample_spec(e.1, e.2, c.0, c.1, now, grace_nanos) {
            SampleOutcome::Released => {},
            SampleOutcome::Kept { snapshot_count, first_seen, warn } => {
                let kept2 = kept.push((e.0, snapshot_count, first_seen));
                assert(labels(kept2) =~= labels(kept).push(e.0));
                assert forall|i: int, j: int|
                    0 <= i < labels(kept2).len() && 0 <= j < labels(kept2).len() && i
                        != j implies labels(kept2)[i] != labels(kept2)[j] by {
                    if i < kept.len() && j < kept.len() {
                        assert(labels(kept)[i] == labels(kept2)[i]);
                        assert(labels(kept)[j] == labels(kept2)[j]);
                    } else if i < kept.len() {
                        assert(labels(kept2)[i] == kept[i].0);
                        assert(labels(init).contains(kept[i].0));
                    } else {
                        assert(labels(kept2)[j] == kept[j].0);
                        assert(labels(init).contains(kept[j].0));
                    }
                }
                assert forall|j: int| 0 <= j < kept2.len() implies labels(entries).contains(
                    #[trigger] kept2[j].0,
                ) by {
                    if j < kept.len() {
                        assert(kept2[j] == kept[j]);
                    } else {
                        assert(labels(entries)[last] == e.0);
                    }
                }
            },
        }
    }
}

/// A resource is reported only when its strong count is above 1 and
/// unchanged since the last sample, and its timer (started when the count
/// was first seen unchanged) is older than the grace period; reporting
/// restarts the timer at `now`. A count of at most 1 is never reported and
/// clears the timer.
pub proof fn lemma_sample_warns_only_on_lasting_count(
    snapshot_count: usize,
    first_seen: Option<u64>,
    alive_count: usize,
    current_count: usize,
    now: u64,
    grace_nanos: u64,
)
    ensures
        ({
            let o = sample_spec(snapshot_count, first_seen, alive_count, current_count, now, grace_nanos);
            &&& (o matches SampleOutcome::Kept { warn: true, .. } ==> {
                &&& current_count > 1
                &&& current_count == snapshot_count
                &&& first_seen matches Some(f) && now - f > grace_nanos
            })
            &&& (o matches SampleOutcome::Kept { warn, first_seen: timer, .. } ==> (warn ==> timer
                == Some(now)))
            &&& (alive_count > 0 && current_count <= 1 ==> o == SampleOutcome::Kept {
                snapshot_count: current_count,
                first_seen: None,
                warn: false,
            })
        }),
{
}

/// After a resource is reported at `now1`, sampling it again at `now2`,
/// no later than the grace period after, does not report it again.
pub proof fn lemma_no_second_warning_within_grace(
    snapshot_count: usize,
    first_seen: Option<u64>,
    alive_count: usize,
    current_count: usize,
    now1: u64,
    alive2: usize,
    current2: usize,
    now2: u64,
    grace_nanos: u64,
)
    requires
        sample_spec(snapshot_count, first_seen, alive_count, current_count, now1, grace_nanos)
            matches SampleOutcome::Kept { warn: true, .. },
        now1 <= now2,
        now2 - now1 <= grace_nanos,
    ensures
        ({
            let o1 = sample_spec(
                snapshot_count,
                first_seen,
                alive_count,
                current_count,
                now1,
                grace_nanos,
            );
            o1 matches SampleOutcome::Kept { snapshot_count: s1, first_seen: f1, .. }
                && !(sample_spec(s1, f1, alive2, current2, now2, grace_nanos) matches SampleOutcome::Kept {
                warn: true,
                ..
            })
        }),
{
}

/// Every report of a sampling pass names a tracked label with a strong
/// count above 1.
pub proof fn lemma_sweep_warnings_above_one(
    entries: Seq<EntryView>,
    counts: Seq<(usize, usize)>,
    now: u64,
    grace_nanos: u64,
)
    ensures
        forall|j: int|
            0 <= j < sweep(entries, counts, now, grace_nanos).1.len() ==> {
                &&& (#[trigger] sweep(entries, counts, now, grace_nanos).1[j]).1 > 1
                &&& labels(entries).contains(sweep(entries, counts, now, grace_nanos).1[j].0)
            },
    decreases entries.len(),
{
    if entries.len() == 0 || counts.len() != entries.len() {
    } else {
        let init = entries.drop_last();
        lemma_sweep_warnings_above_one(init, counts.drop_last(), now, grace_nanos);
        let (kept, warned) = sweep(init, counts.drop_last(), now, grace_nanos);
        let e = entries.last();
        let c = counts.last();
        let w = sweep(entries, counts, now, grace_nanos).1;
        assert(labels(entries)[entries.len() - 1] == e.0);
        assert forall|j: int| 0 <= j < w.len() implies (#[trigger] w[j]).1 > 1 && labels(
            entries,
        ).contains(w[j].0) by {
            if j < warned.len() {
                assert(w[j] == warned[j]);
                let k = choose|k: int| 0 <= k < labels(init).len() && labels(init)[k] == warned[j].0;
                assert(labels(init)[k] == init[k].0);
                assert(labels(entries)[k] == entries[k].0);
            }
        }
    }
}

/// One sample of a tracked resource: the strong count read to check it is
/// alive, the count read as its current value, and the time.
pub type Sample = (usize, usize, u64);

/// The snapshot and grace timer of a resource watched with strong count
/// `watched_count` after the sampling passes `samples`, in order.
pub open spec fn samples_state(watched_count: usize, samples: Seq<Sample>, grace_nanos: u64) -> (
    usize,
    Option<u64>,
)
    decreases samples.len(),
{
    if samples.len() == 0 {
        (watched_count, None)
    } else {
        let (s, t) = samples_state(watched_count, samples.drop_last(), grace_nanos);
        let x = samples.last();
        match sample_spec(s, t, x.0, x.1, x.2, grace_nanos) {
            SampleOutcome::Kept { snapshot_count, first_seen, .. } => (snapshot_count, first_seen),
            SampleOutcome::Released => (s, t),
        }
    }
}

/// Whether sample `j` of `samples` reports the resource.
pub open spec fn warns_at(watched_count: usize, samples: Seq<Sample>, j: int, grace_nanos: u64) -> bool {
    let (s, t) = samples_state(watched_count, samples.take(j), grace_nanos);
    let x = samples[j];
    sample_spec(s, t, x.0, x.1, x.2, grace_nanos) matches SampleOutcome::Kept { warn: true, .. }
}

/// While the resource stays alive, a running grace timer was started at
/// some sample `i` from which on the count has not changed, is above 1,
/// and equals the count before `i`; no report came after `i`.
proof fn lemma_timer_history(watched_count: usize, samples: Seq<Sample>, n: int, grace_nanos: u64)
    requires
        0 <= n <= samples.len(),
        forall|k: int| 0 <= k < samples.len() ==> (#[trigger] samples[k]).0 > 0,
    ensures
        ({
            let (s, t) = samples_state(watched_count, samples.take(n), grace_nanos);
            t matches Some(f) ==> exists|i: int|
                #![trigger samples[i]]
                0 <= i < n && samples[i].2 == f && s > 1 && samples_state(
                    watched_count,
                    samples.take(i),
                    grace_nanos,
                ).0 == s && (forall|k: int| i <= k < n ==> (#[trigger] samples[k]).1 == s) && (
                forall|m: int|
                    0 <= m < n && #[trigger] warns_at(watched_count, samples, m, grace_nanos) ==> m
                        <= i)
        }),
    decreases n,
{
    if n > 0 {
        lemma_timer_history(watched_count, samples, n - 1, grace_nanos);
        let pre = samples.take(n - 1);
        assert(samples.take(n).drop_last() =~= pre);
        assert(samples.take(n).last() == samples[n - 1]);
        let (s0, t0) = samples_state(watched_count, pre, grace_nanos);
        let x = samples[n - 1];
        let (s, t) = samples_state(watched_count, samples.take(n), grace_nanos);
        if let Some(f) = t {
            if t0 == t && s0 == s && !warns_at(watched_count, samples, n - 1, grace_nanos) {
                let i = choose|i: int|
                    #![trigger samples[i]]
                    0 <= i < n - 1 && samples[i].2 == f && s0 > 1 && samples_state(
                        watched_count,
                        samples.take(i),
                        grace_nanos,
                    ).0 == s0 && (forall|k: int| i <= k < n - 1 ==> (#[trigger] samples[k]).1 == s0)
                        && (forall|m: int|
                        0 <= m < n - 1 && #[trigger] warns_at(watched_count, samples, m, grace_nanos)
                            ==> m <= i);
                assert(x.1 == s);
                assert forall|k: int| i <= k < n implies (#[trigger] samples[k]).1 == s by {}
                assert forall|m: int|
                    0 <= m < n && #[trigger] warns_at(watched_count, samples, m, grace_nanos)
                        implies m <= i by {}
            } else {
                let i = n - 1;
                assert(samples[i].2 == f);
                assert(samples_state(watched_count, samples.take(i), grace_nanos).0 == s);
                assert forall|k: int| i <= k < n implies (#[trigger] samples[k]).1 == s by {}
            }
        }
    }
}

/// The leak rule over a resource's successive samples: a report at sample
/// `j` comes only after the strong count has stayed the same value, above
/// 1, from before some earlier sample `i` through `j`, with more than the
/// grace period between the times of `i` and `j`; and, when sample times
/// do not go back, two reports are more than the grace period apart.
pub proof fn lemma_leak_reported_only_after_lasting_count(
    watched_count: usize,
    samples: Seq<Sample>,
    j: int,
    j2: int,
    grace_nanos: u64,
)
    requires
        0 <= j < samples.len(),
        forall|k: int| 0 <= k < samples.len() ==> (#[trigger] samples[k]).0 > 0,
    ensures
        warns_at(watched_count, samples, j, grace_nanos) ==> exists|i: int|
            #![trigger samples[i]]
            0 <= i < j && samples[j].2 - samples[i].2 > grace_nanos && samples[j].1 > 1
                && samples_state(watched_count, samples.take(i), grace_nanos).0 == samples[j].1
                && forall|k: int| i <= k <= j ==> (#[trigger] samples[k]).1 == samples[j].1,
        j < j2 < samples.len() && (forall|a: int, b: int|
            0 <= a <= b < samples.len() ==> (#[trigger] samples[a]).2 <= (#[trigger] samples[b]).2)
            && warns_at(watched_count, samples, j, grace_nanos) && warns_at(
            watched_count,
            samples,
            j2,
            grace_nanos,
        ) ==> samples[j2].2 - samples[j].2 > grace_nanos,
{
    lemma_timer_history(watched_count, samples, j, grace_nanos);
    if warns_at(watched_count, samples, j, grace_nanos) {
        let (s, t) = samples_state(watched_count, samples.take(j), grace_nanos);
        assert(t is Some);
        let f = t->0;
        let i = choose|i: int|
            #![trigger samples[i]]
            0 <= i < j && samples[i].2 == f && s > 1 && samples_state(
                watched_count,
                samples.take(i),
                grace_nanos,
            ).0 == s && (forall|k: int| i <= k < j ==> (#[trigger] samples[k]).1 == s) && (forall|
                m: int,
            |
                0 <= m < j && #[trigger] warns_at(watched_count, samples, m, grace_nanos) ==> m
                    <= i);
        assert(samples[j].1 == s);
        assert forall|k: int| i <= k <= j implies (#[trigger] samples[k]).1 == samples[j].1 by {}
    }
    if j < j2 < samples.len() && (forall|a: int, b: int|
        0 <= a <= b < samples.len() ==> (#[trigger] samples[a]).2 <= (#[trigger] samples[b]).2)
        && warns_at(watched_count, samples, j, grace_nanos) && warns_at(
        watched_count,
        samples,
        j2,
        grace_nanos,
    ) {
        lemma_timer_history(watched_count, samples, j2, grace_nanos);
        let (s, t) = samples_state(watched_count, samples.take(j2), grace_nanos);
        let f = t->0;
        let i = choose|i: int|
            #![trigger samples[i]]
            0 <= i < j2 && samples[i].2 == f && s > 1 && samples_state(
                watched_count,
                samples.take(i),
                grace_nanos,
            ).0 == s && (forall|k: int| i <= k < j2 ==> (#[trigger] samples[k]).1 == s) && (
            forall|m: int|
                0 <= m < j2 && #[trigger] warns_at(watched_count, samples, m, grace_nanos) ==> m
                    <= i);
        assert(j <= i);
        assert(samples[j].2 <= samples[i].2);
    }
}

/// The entries and counts of a sampling pass side by side.
pub open spec fn entries_with_counts(
    entries: Seq<EntryView>,
    counts: Seq<(usize, usize)>,
) -> Seq<(Seq<char>, usize, usize)> {
    Seq::new(entries.len(), |i: int| (entries[i].0, counts[i].0, counts[i].1))
}

/// A sampling pass drops exactly the entries whose handle reads a strong
/// count of 0 (released), and keeps every other entry, reported or not, in
/// order, with its label and the count just read as its new snapshot.
pub proof fn lemma_sweep_drops_only_released(
    entries: Seq<EntryView>,
    counts: Seq<(usize, usize)>,
    now: u64,
    grace_nanos: u64,
)
    requires
        counts.len() == entries.len(),
    ensures
        sweep(entries, counts, now, grace_nanos).0.map_values(|e: EntryView| (e.0, e.1))
            == entries_with_counts(entries, counts).filter(
            |x: (Seq<char>, usize, usize)| x.1 > 0,
        ).map_values(|x: (Seq<char>, usize, usize)| (x.0, x.2)),
    decreases entries.len(),
{
    let alive = |x: (Seq<char>, usize, usize)| x.1 > 0;
    let pick = |x: (Seq<char>, usize, usize)| (x.0, x.2);
    let strip = |e: EntryView| (e.0, e.1);
    let z = entries_with_counts(entries, counts);
    if entries.len() == 0 {
        assert(z.filter(alive) =~= Seq::<(Seq<char>, usize, usize)>::empty()) by {
            reveal_with_fuel(Seq::filter, 1);
        }
        assert(sweep(entries, counts, now, grace_nanos).0.map_values(strip) =~= z.filter(
            alive,
        ).map_values(pick));
    } else {
        let ei = entries.drop_last();
        let ci = counts.drop_last();
        lemma_sweep_drops_only_released(ei, ci, now, grace_nanos);
        let zi = entries_with_counts(ei, ci);
        let last = z[z.len() - 1];
        assert(z =~= zi.push(last));
        zi.lemma_filter_push(last, alive);
        let (kept, warned) = sweep(ei, ci, now, grace_nanos);
        let e = entries.last();
        let c = counts.last();
        match sample_spec(e.1, e.2, c.0, c.1, now, grace_nanos) {
            SampleOutcome::Released => {},
            SampleOutcome::Kept { snapshot_count, first_seen, warn } => {
                assert(kept.push((e.0, snapshot_count, first_seen)).map_values(strip)
                    =~= kept.map_values(strip).push((e.0, snapshot_count)));
                assert(zi.filter(alive).push(last).map_values(pick) =~= zi.filter(
                    alive,
                ).map_values(pick).push(pick(last)));
            },
        }
    }
}

/// A sampling pass keeps the handles of exactly the entries it keeps: those
/// whose handle reads a non-zero strong count, in order.
pub proof fn lemma_sweep_handles_alive<H>(
    handles: Seq<H>,
    entries: Seq<EntryView>,
    counts: Seq<(usize, usize)>,
    now: u64,
    grace_nanos: u64,
)
    requires
        counts.len() == entries.len(),
        handles.len() == entries.len(),
    ensures
        sweep_handles(handles, entries, counts, now, grace_nanos) == Seq::new(
            handles.len(),
            |i: int| (handles[i], counts[i].0),
        ).filter(|x: (H, usize)| x.1 > 0).map_values(|x: (H, usize)| x.0),
    decreases entries.len(),
{
    let alive = |x: (H, usize)| x.1 > 0;
    let first = |x: (H, usize)| x.0;
    let z = Seq::new(handles.len(), |i: int| (handles[i], counts[i].0));
    if entries.len() == 0 {
        assert(z.filter(alive) =~= Seq::<(H, usize)>::empty()) by {
            reveal_with_fuel(Seq::filter, 1);
        }
        assert(sweep_handles(handles, entries, counts, now, grace_nanos) =~= z.filter(
            alive,
        ).map_values(first));
    } else {
        let hi = handles.drop_last();
        let ei = entries.drop_last();
        let ci = counts.drop_last();
        lemma_sweep_handles_alive(hi, ei, ci, now, grace_nanos);
        let zi = Seq::new(hi.len(), |i: int| (hi[i], ci[i].0));
        let last = z[z.len() - 1];
        assert(z =~= zi.push(last));
        zi.lemma_filter_push(last, alive);
        if alive(last) {
            assert(zi.filter(alive).push(last).map_values(first) =~= zi.filter(
                alive,
            ).map_values(first).push(first(last)));
        }
        let e = entries.last();
        let c = counts.last();
        if c.0 > 0 {
            assert(sample_spec(e.1, e.2, c.0, c.1, now, grace_nanos) is Kept);
        }
    }
}

proof fn lemma_empty_entries<H>(s: Seq<TrackedResource<H>>)
    requires
        s.len() == 0,
    ensures
        labels(entries_view(s))
            .no_duplicates(),
{
    assert(labels(entries_view(s))
        =~= Seq::<Seq<char>>::empty());
}

/// Diagnostic tracker that samples strong reference counts at a
/// configurable interval and reports suspected leaks.
pub struct LeakDetector<H> {
    /// Tracked resources, at most one per label.
    resources: Vec<TrackedResource<H>>,
    /// How many ticks a survivor must persist before it is reported.
    grace_ticks: u32,
    /// Interval (in ticks) between sampling passes.
    sample_interval: u32,
    /// Counter of ticks processed (wrapping).
    tick_counter: u64,
}

impl<H> Default for LeakDetector<H> {
    /// A detector with default parameters (see [`LeakDetector::new`]).
    fn default() -> (d: Self)
        ensures
            d.view_entries().len() == 0,
            d.grace() == 600,
            d.interval() == 20,
            d.ticks() == 0,
            labels(d.view_entries()).no_duplicates(),
    {
        Self::new()
    }
}

/// Whether two strings hold the same characters.
pub fn str_eq(a: &str, b: &str) -> (eq: bool)
    ensures
        eq == (a@ == b@),
{
    let x = a.as_bytes();
    let y = b.as_bytes();
    proof {
        vstd::utf8::encode_utf8_decode_utf8(a@);
        vstd::utf8::encode_utf8_decode_utf8(b@);
        assert(x@ == vstd::utf8::encode_utf8(a@));
        assert(y@ == vstd::utf8::encode_utf8(b@));
    }
    if x.len() != y.len() {
        return false;
    }
    let mut i: usize = 0;
    while i < x.len()
        invariant
            x@.len() == y@.len(),
            x@ == vstd::utf8::encode_utf8(a@),
            y@ == vstd::utf8::encode_utf8(b@),
            i <= x@.len(),
            forall|k: int| 0 <= k < i ==> x@[k] == y@[k],
        decreases x.len() - i,
    {
        if x[i] != y[i] {
            assert(x@ != y@);
            return false;
        }
        i = i + 1;
    }
    assert(x@ =~= y@);
    true
}

impl<H> LeakDetector<H> {
    #[verifier::type_invariant]
    spec fn inv(self) -> bool {
        labels(self.view_entries()).no_duplicates()
    }

    /// The tracked entries in storage order.
    pub closed spec fn view_entries(self) -> Seq<EntryView> {
        entries_view(self.resources@)
    }

    /// The tracked handles in storage order.
    pub closed spec fn handles(self) -> Seq<H> {
        handles_of(self.resources@)
    }

    /// There is one handle per tracked entry.
    pub proof fn lemma_handles_match_entries(self)
        ensures
            self.handles().len() == self.view_entries().len(),
    {
    }

    /// The grace period in ticks.
    pub closed spec fn grace(self) -> u32 {
        self.grace_ticks
    }

    /// The sampling interval in ticks.
    pub closed spec fn interval(self) -> u32 {
        self.sample_interval
    }

    /// Number of ticks counted so far (wrapping).
    pub closed spec fn ticks(self) -> u64 {
        self.tick_counter
    }

    /// A detector with default parameters: a grace period of 600 ticks
    /// (about 30 s at 20 TPS) and a sample every 20 ticks.
    pub fn new() -> (d: Self)
        ensures
            d.view_entries().len() == 0,
            d.grace() == 600,
            d.interval() == 20,
            d.ticks() == 0,
            labels(d.view_entries()).no_duplicates(),
    {
        let d = LeakDetector {
            resources: Vec::new(),
            grace_ticks: 600,
            sample_interval: 20,
            tick_counter: 0,
        };
        assert(labels(d.view_entries()) =~= Seq::<Seq<char>>::empty());
        d
    }

    /// A detector with the given grace period and sampling interval.
    pub fn with_params(grace_ticks: u32, sample_interval: u32) -> (d: Self)
        ensures
            d.view_entries().len() == 0,
            d.grace() == grace_ticks,
            d.interval() == sample_interval,
            d.ticks() == 0,
            labels(d.view_entries()).no_duplicates(),
    {
        let d = LeakDetector { resources: Vec::new(), grace_ticks, sample_interval, tick_counter: 0 };
        assert(labels(d.view_entries()) =~= Seq::<Seq<char>>::empty());
        d
    }

    /// The grace period in nanoseconds (50 ms per tick).
    pub fn grace_duration(&self) -> (nanos: u64)
        ensures
            nanos == self.grace() * NANOS_PER_TICK,
    {
        self.grace_ticks as u64 * NANOS_PER_TICK
    }

    /// Position of the entry labelled `label`, if any.
    fn find(&self, label: &str) -> (idx: Option<usize>)
        ensures
            idx matches Some(i) ==> i < self.view_entries().len() && self.view_entries()[i as int].0
                == label@,
            idx is None ==> !labels(self.view_entries()).contains(label@),
    {
        let mut i: usize = 0;
        while i < self.resources.len()
            invariant
                i <= self.resources@.len(),
                forall|k: int| 0 <= k < i ==> self.resources@[k].label@ != label@,
            decreases self.resources.len() - i,
        {
            if str_eq(self.resources[i].label, label) {
                return Some(i);
            }
            i = i + 1;
        }
        assert forall|k: int| 0 <= k < labels(self.view_entries()).len() implies labels(
            self.view_entries(),
        )[k] != label@ by {
            assert(labels(self.view_entries())[k] == self.resources@[k].label@);
        }
        None
    }

    /// Register a handle under `label` with its current strong count.
    /// Re-registering a label replaces the previous entry.
    pub fn watch(&mut self, label: &'static str, handle: H, strong_count: usize)
        ensures
            final(self).grace() == old(self).grace(),
            final(self).interval() == old(self).interval(),
            final(self).ticks() == old(self).ticks(),
            labels(old(self).view_entries()).contains(label@) ==> exists|i: int|
                0 <= i < old(self).view_entries().len() && old(self).view_entries()[i].0 == label@
                    && final(self).view_entries() == old(self).view_entries().update(
                    i,
                    (label@, strong_count, None::<u64>),
                ) && final(self).handles() == old(self).handles().update(i, handle),
            !labels(old(self).view_entries()).contains(label@) ==> final(self).view_entries()
                == old(self).view_entries().push((label@, strong_count, None::<u64>))
                && final(self).handles() == old(self).handles().push(handle),
            labels(final(self).view_entries()).contains(label@),
            labels(final(self).view_entries()).no_duplicates(),
    {
        proof {
            use_type_invariant(&*self);
        }
        let entry = TrackedResource { label, handle, snapshot_count: strong_count, first_seen: None };
        let ghost old_view = self.view_entries();
        match self.find(label) {
            Some(i) => {
                let ghost new_view = old_view.update(i as int, (label@, strong_count, None::<u64>));
                proof {
                    assert(labels(old_view)[i as int] == label@);
                    assert(labels(new_view) =~= labels(old_view));
                }
                let mut res: Vec<TrackedResource<H>> = Vec::new();
                proof {
                    lemma_empty_entries::<H>(res@);
                }
                let ghost old_handles = self.handles();
                std::mem::swap(&mut res, &mut self.resources);
                res.set(i, entry);
                assert(entries_view(res@) =~= new_view);
                assert(handles_of(res@) =~= old_handles.update(i as int, handle));
                self.resources = res;
                assert(self.view_entries() =~= new_view);
                proof {
                    use_type_invariant(&*self);
                    assert(labels(self.view_entries())[i as int] == label@);
                }
            },
            None => {
                let ghost new_view = old_view.push((label@, strong_count, None::<u64>));
                proof {
                    assert(labels(new_view) =~= labels(old_view).push(label@));
                    assert forall|a: int, b: int|
                        0 <= a < labels(new_view).len() && 0 <= b < labels(new_view).len() && a
                            != b implies labels(new_view)[a] != labels(new_view)[b] by {
                        if a < old_view.len() && b < old_view.len() {
                            assert(labels(new_view)[a] == labels(old_view)[a]);
                            assert(labels(new_view)[b] == labels(old_view)[b]);
                        } else if a < old_view.len() {
                            assert(labels(new_view)[a] == labels(old_view)[a]);
                        } else {
                            assert(labels(new_view)[b] == labels(old_view)[b]);
                        }
                    }
                }
                let mut res: Vec<TrackedResource<H>> = Vec::new();
                proof {
                    lemma_empty_entries::<H>(res@);
                }
                let ghost old_handles = self.handles();
                std::mem::swap(&mut res, &mut self.resources);
                res.push(entry);
                assert(entries_view(res@) =~= new_view);
                assert(handles_of(res@) =~= old_handles.push(handle));
                self.resources = res;
                assert(self.view_entries() =~= new_view);
                proof {
                    use_type_invariant(&*self);
                    assert(labels(self.view_entries())[old_view.len() as int] == label@);
                }
            },
        }
    }

    /// Stop tracking `label`.
    pub fn unwatch(&mut self, label: &'static str)
        ensures
            final(self).grace() == old(self).grace(),
            final(self).interval() == old(self).interval(),
            final(self).ticks() == old(self).ticks(),
            !labels(final(self).view_entries()).contains(label@),
            labels(old(self).view_entries()).contains(label@) ==> exists|i: int|
                0 <= i < old(self).view_entries().len() && old(self).view_entries()[i].0 == label@
                    && final(self).view_entries() == old(self).view_entries().remove(i)
                    && final(self).handles() == old(self).handles().remove(i),
            !labels(old(self).view_entries()).contains(label@) ==> final(self).view_entries()
                == old(self).view_entries() && final(self).handles() == old(self).handles(),
            labels(final(self).view_entries()).no_duplicates(),
    {
        proof {
            use_type_invariant(&*self);
        }
        let ghost old_view = self.view_entries();
        match self.find(label) {
            Some(i) => {
                let ghost new_view = old_view.remove(i as int);
                proof {
                    assert(labels(new_view) =~= labels(old_view).remove(i as int));
                    assert(labels(old_view)[i as int] == label@);
                    assert forall|a: int| 0 <= a < labels(new_view).len() implies #[trigger] labels(
                        new_view,
                    )[a] != label@ by {
                        if a < i {
                            assert(labels(new_view)[a] == labels(old_view)[a]);
                        } else {
                            assert(labels(new_view)[a] == labels(old_view)[a + 1]);
                        }
                    }
                    assert forall|a: int, b: int|
                        0 <= a < labels(new_view).len() && 0 <= b < labels(new_view).len() && a
                            != b implies labels(new_view)[a] != labels(new_view)[b] by {
                        let a2 = if a < i {
                            a
                        } else {
                            a + 1
                        };
                        let b2 = if b < i {
                            b
                        } else {
                            b + 1
                        };
                        assert(labels(new_view)[a] == labels(old_view)[a2]);
                        assert(labels(new_view)[b] == labels(old_view)[b2]);
                    }
                }
                let mut res: Vec<TrackedResource<H>> = Vec::new();
                proof {
                    lemma_empty_entries::<H>(res@);
                }
                let ghost old_handles = self.handles();
                std::mem::swap(&mut res, &mut self.resources);
                let _ = res.remove(i);
                assert(entries_view(res@) =~= new_view);
                assert(handles_of(res@) =~= old_handles.remove(i as int));
                self.resources = res;
                assert(self.view_entries() =~= new_view);
                proof {
                    use_type_invariant(&*self);
                }
            },
            None => {},
        }
    }

    /// Advance the tick counter and, on sampling ticks, sample every tracked
    /// handle: `strong_count` reads a handle's strong count, `now` is the
    /// current time in nanoseconds.  Returns the resources reported as
    /// possible leaks.
    pub fn tick<F: Fn(&H) -> usize>(&mut self, now: u64, strong_count: F) -> (warnings: Vec<
        LeakWarning,
    >)
        requires
            forall|h: &H| strong_count.requires((h,)),
        ensures
            final(self).grace() == old(self).grace(),
            final(self).interval() == old(self).interval(),
            final(self).ticks() == if old(self).ticks() == u64::MAX {
                0
            } else {
                (old(self).ticks() + 1) as u64
            },
            !samples_at(old(self).ticks(), old(self).interval()) ==> final(self).view_entries()
                == old(self).view_entries() && final(self).handles() == old(self).handles()
                && warnings@.len() == 0,
            samples_at(old(self).ticks(), old(self).interval()) ==> exists|
                counts: Seq<(usize, usize)>,
            |
                counts.len() == old(self).view_entries().len() && read_by(
                    strong_count,
                    old(self).handles(),
                    counts,
                ) && #[trigger] sweep(
                    old(self).view_entries(),
                    counts,
                    now,
                    (old(self).grace() * NANOS_PER_TICK) as u64,
                ) == (final(self).view_entries(), warnings_view(warnings@)) && final(self).handles()
                    == sweep_handles(
                    old(self).handles(),
                    old(self).view_entries(),
                    counts,
                    now,
                    (old(self).grace() * NANOS_PER_TICK) as u64,
                ),
            labels(final(self).view_entries()).no_duplicates(),
    {
        proof {
            use_type_invariant(&*self);
        }
        let tick = self.tick_counter;
        self.tick_counter = if tick == u64::MAX {
            0
        } else {
            tick + 1
        };
        let t = #[verifier::truncate] (tick as u32);
        let sample = if self.sample_interval == 0 {
            t == 0
        } else {
            t % self.sample_interval == 0
        };
        let mut warnings: Vec<LeakWarning> = Vec::new();
        if !sample {
            proof {
                use_type_invariant(&*self);
            }
            return warnings;
        }
        let grace = self.grace_duration();
        let ghost orig = self.view_entries();
        let ghost orig_handles = self.handles();
        let mut pending: Vec<TrackedResource<H>> = Vec::new();
        proof {
            lemma_empty_entries::<H>(pending@);
        }
        std::mem::swap(&mut pending, &mut self.resources);
        let ghost mut counts: Seq<(usize, usize)> = seq![];
        let ghost total = orig.len();
        let mut kept: Vec<TrackedResource<H>> = Vec::new();
        while pending.len() > 0
            invariant
                forall|h: &H| strong_count.requires((h,)),
                total == orig.len(),
                counts.len() + pending@.len() == total,
                entries_view(pending@) =~= orig.skip(counts.len() as int),
                orig_handles.len() == total,
                handles_of(pending@) =~= orig_handles.skip(
                    counts.len() as int,
                ),
                forall|k: int|
                    0 <= k < counts.len() ==> call_ensures(
                        strong_count,
                        (&orig_handles[k],),
                        #[trigger] counts[k].0,
                    ) && call_ensures(strong_count, (&orig_handles[k],), counts[k].1),
                sweep(orig.take(counts.len() as int), counts, now, grace) == (
                    entries_view(kept@),
                    warnings_view(warnings@),
                ),
                handles_of(kept@) == sweep_handles(
                    orig_handles.take(counts.len() as int),
                    orig.take(counts.len() as int),
                    counts,
                    now,
                    grace,
                ),
            decreases pending.len(),
        {
            let ghost i = counts.len() as int;
            let ghost before = pending@;
            let ghost counts_before = counts;
            let ghost kept_before = entries_view(kept@);
            let ghost kept_handles_before = handles_of(kept@);
            let ghost warned_before = warnings_view(warnings@);
            let r = pending.remove(0);
            let ghost r_handle = r.handle;
            let alive = strong_count(&r.handle);
            let current = strong_count(&r.handle);
            proof {
                counts = counts.push((alive, current));
                assert(handles_of(before)[0] == orig_handles.skip(
                    i,
                )[0]);
                assert(r.handle == orig_handles[i]);
                assert forall|k: int|
                    0 <= k < counts.len() implies call_ensures(
                    strong_count,
                    (&orig_handles[k],),
                    #[trigger] counts[k].0,
                ) && call_ensures(strong_count, (&orig_handles[k],), counts[k].1) by {
                    if k < i {
                        assert(counts[k] == counts_before[k]);
                    }
                }
                assert(handles_of(pending@) =~= orig_handles.skip(
                    i + 1,
                )) by {
                    assert forall|k: int|
                        0 <= k < pending@.len() implies #[trigger] handles_of(pending@)[k]
                        == orig_handles.skip(i + 1)[k] by {
                        assert(pending@[k] == before[k + 1]);
                        assert(handles_of(before)[k + 1]
                            == orig_handles.skip(i)[k + 1]);
                    }
                }
                assert(entries_view(before)[0] == orig.skip(i)[0]);
                assert(orig[i] == (r.label@, r.snapshot_count, r.first_seen));
                assert forall|k: int| 0 <= k < pending@.len() implies pending@[k] == before[k + 1] by {
                }
                assert(entries_view(pending@) =~= orig.skip(i + 1)) by {
                    assert forall|k: int| 0 <= k < pending@.len() implies #[trigger] entries_view(pending@)[k] == orig.skip(i + 1)[k] by {
                        assert(entries_view(before)[k + 1] == orig.skip(i)[k + 1]);
                    }
                }
            }
            let outcome = sample_resource(r.snapshot_count, r.first_seen, alive, current, now, grace);
            match outcome {
                SampleOutcome::Released => {},
                SampleOutcome::Kept { snapshot_count, first_seen, warn } => {
                    if warn {
                        warnings.push(LeakWarning { label: r.label, strong_count: snapshot_count });
                    }
                    kept.push(
                        TrackedResource { label: r.label, handle: r.handle, snapshot_count, first_seen },
                    );
                },
            }
            proof {
                let t = orig.take(i + 1);
                assert(t.drop_last() =~= orig.take(i));
                assert(counts.drop_last() =~= counts_before);
                assert(t.last() == orig[i]);
                assert(counts.last() == (alive, current));
                assert(t.len() == counts.len());
                assert(sweep(t.drop_last(), counts.drop_last(), now, grace) == (
                    kept_before,
                    warned_before,
                ));
                assert(warnings_view(warnings@) =~= sweep(
                    t,
                    counts,
                    now,
                    grace,
                ).1);
                assert(entries_view(kept@) =~= sweep(t, counts, now, grace).0);
                let th = orig_handles.take(i + 1);
                assert(th.drop_last() =~= orig_handles.take(i));
                assert(th.last() == r_handle);
                assert(th.len() == t.len());
                assert(handles_of(kept@) =~= sweep_handles(th, t, counts, now, grace));
            }
        }
        proof {
            assert(orig.take(total as int) =~= orig);
            assert(orig_handles.take(total as int) =~= orig_handles);
            lemma_sweep_labels(orig, counts, now, grace);
        }
        self.resources = kept;
        assert(sweep(orig, counts, now, grace) == (
            self.view_entries(),
            warnings_view(warnings@),
        ));
        assert(grace == (old(self).grace() * NANOS_PER_TICK) as u64);
        assert(orig_handles == old(self).handles());
        assert forall|k: int|
            0 <= k < counts.len() implies call_ensures(
            strong_count,
            (&old(self).handles()[k],),
            #[trigger] counts[k].0,
        ) && call_ensures(strong_count, (&old(self).handles()[k],), counts[k].1) by {
            assert(call_ensures(strong_count, (&orig_handles[k],), counts[k].0));
            assert(old(self).handles()[k] == orig_handles[k]);
        }
        assert(read_by(strong_count, old(self).handles(), counts));
        assert(counts.len() == old(self).view_entries().len() && read_by(
            strong_count,
            old(self).handles(),
            counts,
        ) && sweep(
            old(self).view_entries(),
            counts,
            now,
            (old(self).grace() * NANOS_PER_TICK) as u64,
        ) == (self.view_entries(), warnings_view(warnings@)));
        proof {
            use_type_invariant(&*self);
        }
        warnings
    }

    /// Number of currently tracked resources.
    pub fn tracked_count(&self) -> (n: usize)
        ensures
            n == self.view_entries().len(),
            labels(self.view_entries()).no_duplicates(),
    {
        proof {
            use_type_invariant(self);
        }
        self.resources.len()
    }

    /// Each tracked label with the strong count `strong_count` reads for
    /// its handle now, in storage order.
    pub fn report<F: Fn(&H) -> usize>(&self, strong_count: F) -> (r: Vec<(&'static str, usize)>)
        requires
            forall|h: &H| strong_count.requires((h,)),
        ensures
            r@.len() == self.view_entries().len(),
            forall|i: int| 0 <= i < r@.len() ==> (#[trigger] r@[i]).0@ == self.view_entries()[i].0,
            forall|i: int|
                0 <= i < r@.len() ==> call_ensures(
                    strong_count,
                    (&self.handles()[i],),
                    (#[trigger] r@[i]).1,
                ),
            labels(self.view_entries()).no_duplicates(),
            forall|i: int, j: int|
                0 <= i < r@.len() && 0 <= j < r@.len() && i != j ==> (#[trigger] r@[i]).0@
                    != (#[trigger] r@[j]).0@,
    {
        proof {
            use_type_invariant(self);
        }
        let mut out: Vec<(&'static str, usize)> = Vec::new();
        let mut i: usize = 0;
        while i < self.resources.len()
            invariant
                forall|h: &H| strong_count.requires((h,)),
                i <= self.resources@.len(),
                out@.len() == i,
                forall|k: int| 0 <= k < i ==> (#[trigger] out@[k]).0@ == self.resources@[k].label@,
                forall|k: int|
                    0 <= k < i ==> call_ensures(
                        strong_count,
                        (&self.resources@[k].handle,),
                        (#[trigger] out@[k]).1,
                    ),
            decreases self.resources.len() - i,
        {
            let c = strong_count(&self.resources[i].handle);
            out.push((self.resources[i].label, c));
            i = i + 1;
        }
        assert forall|k: int| 0 <= k < out@.len() implies call_ensures(
            strong_count,
            (&self.handles()[k],),
            (#[trigger] out@[k]).1,
        ) by {
            assert(self.handles()[k] == self.resources@[k].handle);
        }
        assert forall|a: int, b: int|
            0 <= a < out@.len() && 0 <= b < out@.len() && a != b implies (#[trigger] out@[a]).0@
            != (#[trigger] out@[b]).0@ by {
            assert(labels(self.view_entries())[a] == self.view_entries()[a].0);
            assert(labels(self.view_entries())[b] == self.view_entries()[b].0);
            assert(self.view_entries()[a].0 == self.resources@[a].label@);
            assert(self.view_entries()[b].0 == self.resources@[b].label@);
        }
        out
    }
}

/// Watching a label that is not tracked and then unwatching it leaves the
/// tracked entries and handles as they were.
pub proof fn lemma_unwatch_undoes_watch<H>(
    entries: Seq<EntryView>,
    handles: Seq<H>,
    label: Seq<char>,
    count: usize,
    handle: H,
    i: int,
)
    requires
        !labels(entries).contains(label),
        handles.len() == entries.len(),
        0 <= i <= entries.len(),
        entries.push((label, count, None::<u64>))[i].0 == label,
    ensures
        entries.push((label, count, None::<u64>)).remove(i) == entries,
        handles.push(handle).remove(i) == handles,
{
    if i < entries.len() {
        assert(labels(entries)[i] == label);
    }
    assert(entries.push((label, count, None::<u64>)).remove(i) =~= entries);
    assert(handles.push(handle).remove(i) =~= handles);
}

} // verus!
