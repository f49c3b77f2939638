//! Tick-loop bookkeeping: rolling tick-time statistics, the over-budget
//! watchdog and the deadline schedule of the main loop.

use vstd::prelude::*;

verus! {

// ===========================================================================
// TickMetrics
// ===========================================================================

/// Largest window a [`TickMetrics`] accepts.
pub const MAX_WINDOW: u16 = 4096;

/// Rolling-window tick-time statistics over the most recent `window_size`
/// ticks.
pub struct TickMetrics {
    /// Ring buffer of per-tick durations (nanoseconds, clamped to `u32`).
    history: Vec<u32>,
    /// Number of slots in use.
    window_size: u16,
    /// Number of recorded ticks, wrapping at `u32::MAX`.
    cursor: u32,
}

/// Summary of the current window: smallest, largest and summed tick time
/// over `count` ticks.  All zeros when nothing was recorded.
#[derive(Debug, Clone, Copy, PartialEq, Eq, Structural)]
pub struct TickSnapshot {
    pub min_ns: u64,
    pub max_ns: u64,
    pub sum_ns: u64,
    pub count: u64,
}

/// A tick duration clamped to `u32`.
pub open spec fn clamp_u32(d: u64) -> u32 {
    if d > u32::MAX {
        u32::MAX
    } else {
        d as u32
    }
}

/// Smallest of the first `n` values.
pub open spec fn seq_min(s: Seq<u32>, n: int) -> int
    decreases n,
{
    if n <= 0 {
        u64::MAX as int
    } else {
        let m = seq_min(s, n - 1);
        if s[n - 1] < m {
            s[n - 1] as int
        } else {
            m
        }
    }
}

/// Largest of the first `n` values.
pub open spec fn seq_max(s: Seq<u32>, n: int) -> int
    decreases n,
{
    if n <= 0 {
        0
    } else {
        let m = seq_max(s, n - 1);
        if s[n - 1] > m {
            s[n - 1] as int
        } else {
            m
        }
    }
}

/// Sum of the first `n` values.
pub open spec fn seq_sum(s: Seq<u32>, n: int) -> int
    decreases n,
{
    if n <= 0 {
        0
    } else {
        seq_sum(s, n - 1) + s[n - 1]
    }
}

/// The ring buffer after recording `ds`, in order, into a fresh buffer of
/// `window` slots.
pub open spec fn history_after(window: nat, ds: Seq<u64>) -> Seq<u32>
    decreases ds.len(),
{
    if ds.len() == 0 {
        Seq::new(window, |i: int| 0u32)
    } else {
        let n = (ds.len() - 1) as int;
        history_after(window, ds.drop_last()).update(n % (window as int), clamp_u32(ds.last()))
    }
}

/// After recording fewer than `2^32` durations into a fresh buffer, slot
/// `k` holds the latest duration whose record number is `k` modulo the
/// window, and untouched slots hold zero: the window always holds the
/// most recent `window` durations.
pub proof fn lemma_window_holds_latest(window: nat, ds: Seq<u64>, k: int)
    requires
        window > 0,
        0 <= k < window,
    ensures
        history_after(window, ds).len() == window,
        k < ds.len() ==> history_after(window, ds)[k] == clamp_u32(
            ds[k + window * ((ds.len() - 1 - k) / (window as int))],
        ),
        k >= ds.len() ==> history_after(window, ds)[k] == 0,
    decreases ds.len(),
{
    if ds.len() > 0 {
        let n = ds.len() - 1;
        let init = ds.drop_last();
        lemma_window_holds_latest(window, init, k);
        let w = window as int;
        if n % w == k {
            if n < w {
                vstd::arithmetic::div_mod::lemma_small_mod(n as nat, w as nat);
            }
            assert(k <= n);
            assert(n == k + w * ((n - k) / w)) by {
                vstd::arithmetic::div_mod::lemma_fundamental_div_mod(n, w);
                vstd::arithmetic::mul::lemma_mul_is_commutative(w, n / w);
                vstd::arithmetic::div_mod::lemma_fundamental_div_mod_converse(n - k, w, n / w, 0);
            }
        } else if k < n {
            let q = (n - k) / w;
            let q0 = (n - 1 - k) / w;
            assert((n - k) % w != 0) by {
                if (n - k) % w == 0 {
                    vstd::arithmetic::div_mod::lemma_fundamental_div_mod(n - k, w);
                    vstd::arithmetic::div_mod::lemma_fundamental_div_mod_converse(n, w, (n - k) / w, k);
                }
            }
            assert(q == q0) by {
                lemma_same_quotient(n - k, w);
            }
            assert(init[k + w * q0] == ds[k + w * q0]) by {
                assert(k + w * q0 <= n - 1) by (nonlinear_arith)
                    requires
                        w > 0,
                        0 <= n - 1 - k,
                        q0 == (n - 1 - k) / w,
                {
                    vstd::arithmetic::div_mod::lemma_fundamental_div_mod(n - 1 - k, w);
                    vstd::arithmetic::div_mod::lemma_mod_pos_bound(n - 1 - k, w);
                }
            }
        } else {
            assert(n % w == n) by {
                vstd::arithmetic::div_mod::lemma_small_mod(n as nat, w as nat);
            }
        }
    } else {
        assert(history_after(window, ds)[k] == 0u32);
    }
}

/// Each of the latest `window` durations recorded into a fresh buffer
/// sits, clamped, in slot (record number modulo window): together with
/// [`lemma_window_holds_latest`], the filled slots hold exactly the most
/// recent `min(n, window)` durations, one per slot.
pub proof fn lemma_latest_in_window(window: nat, ds: Seq<u64>, j: int)
    requires
        window > 0,
        0 <= j < ds.len(),
        ds.len() - window <= j,
    ensures
        j % (window as int) < ds.len(),
        history_after(window, ds)[j % (window as int)] == clamp_u32(ds[j]),
{
    let w = window as int;
    let n = ds.len() as int;
    let k = j % w;
    let q = j / w;
    vstd::arithmetic::div_mod::lemma_fundamental_div_mod(j, w);
    vstd::arithmetic::div_mod::lemma_mod_pos_bound(j, w);
    assert(k <= j) by (nonlinear_arith)
        requires
            j == w * q + k,
            0 <= k < w,
            j >= 0,
            w > 0,
    ;
    lemma_window_holds_latest(window, ds, k);
    assert(n - 1 - k == q * w + (n - 1 - j)) by (nonlinear_arith)
        requires
            j == w * q + k,
    ;
    vstd::arithmetic::div_mod::lemma_fundamental_div_mod_converse(n - 1 - k, w, q, n - 1 - j);
    assert(k + w * ((n - 1 - k) / w) == j) by (nonlinear_arith)
        requires
            (n - 1 - k) / w == q,
            j == w * q + k,
    ;
}

/// The most recent `min(n, window)` of the durations `ds`, clamped, oldest
/// first: what a window of `window` ticks summarises after recording `ds`.
pub open spec fn recent_window(window: nat, ds: Seq<u64>) -> Seq<u32> {
    let c = if ds.len() < window {
        ds.len()
    } else {
        window
    };
    Seq::new(c, |m: int| clamp_u32(ds[ds.len() - c + m]))
}

/// Statistics over the first `n` values depend only on those values.
proof fn lemma_prefix_stats(a: Seq<u32>, b: Seq<u32>, n: int)
    requires
        0 <= n <= a.len(),
        n <= b.len(),
        forall|i: int| 0 <= i < n ==> a[i] == b[i],
    ensures
        seq_min(a, n) == seq_min(b, n),
        seq_max(a, n) == seq_max(b, n),
        seq_sum(a, n) == seq_sum(b, n),
    decreases n,
{
    if n > 0 {
        lemma_prefix_stats(a, b, n - 1);
    }
}

/// Statistics over two runs of values put end to end.
proof fn lemma_concat_stats(a: Seq<u32>, b: Seq<u32>)
    ensures
        seq_sum(a + b, (a.len() + b.len()) as int) == seq_sum(a, a.len() as int) + seq_sum(
            b,
            b.len() as int,
        ),
        seq_min(a + b, (a.len() + b.len()) as int) == if seq_min(a, a.len() as int) <= seq_min(
            b,
            b.len() as int,
        ) {
            seq_min(a, a.len() as int)
        } else {
            seq_min(b, b.len() as int)
        },
        seq_max(a + b, (a.len() + b.len()) as int) == if seq_max(a, a.len() as int) >= seq_max(
            b,
            b.len() as int,
        ) {
            seq_max(a, a.len() as int)
        } else {
            seq_max(b, b.len() as int)
        },
    decreases b.len(),
{
    if b.len() == 0 {
        lemma_prefix_stats(a + b, a, a.len() as int);
    } else {
        let b0 = b.drop_last();
        lemma_concat_stats(a, b0);
        lemma_prefix_stats(a + b, a + b0, (a.len() + b0.len()) as int);
        lemma_prefix_stats(b, b0, b0.len() as int);
        assert((a + b)[a.len() + b.len() - 1] == b[b.len() - 1]);
    }
}

/// Once at least `window` durations are recorded, slot `k` holds the
/// recent duration at position `(k - n % window) mod window` of the
/// window, oldest first.
proof fn lemma_rotated_slot(window: nat, ds: Seq<u64>, k: int)
    requires
        window > 0,
        ds.len() >= window,
        0 <= k < window,
    ensures
        ({
            let w = window as int;
            let r = ds.len() as int % w;
            let v = recent_window(window, ds);
            &&& k < r ==> history_after(window, ds)[k] == v[w - r + k]
            &&& k >= r ==> history_after(window, ds)[k] == v[k - r]
        }),
{
    let w = window as int;
    let n = ds.len() as int;
    let r = n % w;
    let q = n / w;
    vstd::arithmetic::div_mod::lemma_fundamental_div_mod(n, w);
    vstd::arithmetic::div_mod::lemma_mod_pos_bound(n, w);
    let base = n - r;
    assert(base == q * w) by {
        vstd::arithmetic::mul::lemma_mul_is_commutative(w, q);
    }
    assert((q - 1) * w == q * w - w) by (nonlinear_arith);
    if k < r {
        let j = base + k;
        assert(j == q * w + k);
        vstd::arithmetic::div_mod::lemma_fundamental_div_mod_converse(j, w, q, k);
        assert(j == n - w + (w - r + k));
        lemma_latest_in_window(window, ds, j);
    } else {
        let j = base - w + k;
        assert(j == (q - 1) * w + k);
        vstd::arithmetic::div_mod::lemma_fundamental_div_mod_converse(j, w, q - 1, k);
        assert(j == n - w + (k - r));
        lemma_latest_in_window(window, ds, j);
    }
}

/// After recording durations `ds` (fewer than `2^32`) into a fresh window
/// of `window` slots, the smallest, largest and summed values over the
/// filled slots, which [`TickMetrics::snapshot_totals`] reports, are those
/// of the most recent `min(n, window)` durations, clamped.
pub proof fn lemma_snapshot_of_recent(window: nat, ds: Seq<u64>)
    requires
        window > 0,
    ensures
        ({
            let h = history_after(window, ds);
            let v = recent_window(window, ds);
            &&& seq_min(h, v.len() as int) == seq_min(v, v.len() as int)
            &&& seq_max(h, v.len() as int) == seq_max(v, v.len() as int)
            &&& seq_sum(h, v.len() as int) == seq_sum(v, v.len() as int)
        }),
{
    let h = history_after(window, ds);
    let v = recent_window(window, ds);
    let w = window as int;
    let n = ds.len() as int;
    lemma_window_holds_latest(window, ds, 0);
    if n < w {
        assert forall|k: int| 0 <= k < n implies h[k] == v[k] by {
            lemma_window_holds_latest(window, ds, k);
            vstd::arithmetic::div_mod::lemma_basic_div(n - 1 - k, w);
        }
        lemma_prefix_stats(h, v, n);
    } else {
        let r = n % w;
        vstd::arithmetic::div_mod::lemma_mod_pos_bound(n, w);
        let a = v.skip(w - r);
        let b = v.take(w - r);
        let rot = a + b;
        assert forall|k: int| 0 <= k < w implies h[k] == rot[k] by {
            lemma_rotated_slot(window, ds, k);
        }
        lemma_prefix_stats(h, rot, w);
        lemma_concat_stats(a, b);
        lemma_concat_stats(b, a);
        assert(b + a =~= v);
    }
}

/// When `x % w != 0`, `x` and `x - 1` have the same quotient by `w`.
proof fn lemma_same_quotient(x: int, w: int)
    requires
        w > 0,
        x > 0,
        (x + 0) % w != 0,
    ensures
        x / w == (x - 1) / w,
{
    vstd::arithmetic::div_mod::lemma_fundamental_div_mod(x, w);
    vstd::arithmetic::div_mod::lemma_fundamental_div_mod(x - 1, w);
    vstd::arithmetic::div_mod::lemma_mod_pos_bound(x, w);
    vstd::arithmetic::div_mod::lemma_mod_pos_bound(x - 1, w);
    assert(x / w == (x - 1) / w) by (nonlinear_arith)
        requires
            w > 0,
            x == w * (x / w) + x % w,
            x - 1 == w * ((x - 1) / w) + (x - 1) % w,
            0 < x % w < w,
            0 <= (x - 1) % w < w,
    ;
}

impl TickMetrics {
    /// The buffer has exactly one slot per window position.
    pub closed spec fn wf(self) -> bool {
        &&& 1 <= self.window_size <= MAX_WINDOW
        &&& self.history@.len() == self.window_size
    }

    /// The ring buffer contents.
    pub closed spec fn history(self) -> Seq<u32> {
        self.history@
    }

    /// The window size.
    pub closed spec fn window(self) -> nat {
        self.window_size as nat
    }

    /// The (wrapping) number of recorded ticks.
    pub closed spec fn recorded(self) -> u32 {
        self.cursor
    }

    /// A tracker over a window of `window_size` ticks (1 to 4096).
    pub fn new(window_size: u16) -> (m: Self)
        requires
            0 < window_size <= MAX_WINDOW,
        ensures
            m.wf(),
            m.window() == window_size,
            m.recorded() == 0,
            m.history() == history_after(window_size as nat, seq![]),
    {
        let mut history: Vec<u32> = Vec::new();
        let mut i: u16 = 0;
        while i < window_size
            invariant
                i <= window_size,
                history@ =~= Seq::new(i as nat, |k: int| 0u32),
            decreases window_size - i,
        {
            history.push(0);
            i = i + 1;
        }
        TickMetrics { history, window_size, cursor: 0 }
    }

    /// Record the duration of one tick, clamped to `u32::MAX` (about 4.3 s).
    pub fn record(&mut self, duration_ns: u64)
        requires
            old(self).wf(),
        ensures
            final(self).wf(),
            final(self).window() == old(self).window(),
            final(self).recorded() == if old(self).recorded() == u32::MAX {
                0
            } else {
                (old(self).recorded() + 1) as u32
            },
            final(self).history() == old(self).history().update(
                old(self).recorded() as int % old(self).window() as int,
                clamp_u32(duration_ns),
            ),
    {
        let idx = (self.cursor % (self.window_size as u32)) as usize;
        self.cursor = if self.cursor == u32::MAX {
            0
        } else {
            self.cursor + 1
        };
        let v: u32 = if duration_ns > u32::MAX as u64 {
            u32::MAX
        } else {
            duration_ns as u32
        };
        self.history.set(idx, v);
    }

    /// Smallest, largest and summed duration over the current window, and
    /// the number of ticks it covers; all zeros if nothing was recorded.
    pub fn snapshot_totals(&self) -> (s: TickSnapshot)
        requires
            self.wf(),
        ensures
            s.count == if self.recorded() < self.window() {
                self.recorded() as int
            } else {
                self.window() as int
            },
            s.count == 0 ==> s == (TickSnapshot { min_ns: 0, max_ns: 0, sum_ns: 0, count: 0 }),
            s.count > 0 ==> s.min_ns == seq_min(self.history(), s.count as int) && s.max_ns
                == seq_max(self.history(), s.count as int) && s.sum_ns == seq_sum(
                self.history(),
                s.count as int,
            ),
    {
        let w = self.window_size as u32;
        let count: u32 = if self.cursor < w {
            self.cursor
        } else {
            w
        };
        if count == 0 {
            return TickSnapshot { min_ns: 0, max_ns: 0, sum_ns: 0, count: 0 };
        }
        let mut min_ns: u64 = u64::MAX;
        let mut max_ns: u64 = 0;
        let mut sum: u64 = 0;
        let mut i: usize = 0;
        while i < count as usize
            invariant
                count <= self.history@.len() <= 4096,
                i <= count,
                min_ns == seq_min(self.history@, i as int),
                max_ns == seq_max(self.history@, i as int),
                sum == seq_sum(self.history@, i as int),
                sum <= i * 0xFFFF_FFFF,
            decreases count - i,
        {
            let v = self.history[i] as u64;
            if v < min_ns {
                min_ns = v;
            }
            if v > max_ns {
                max_ns = v;
            }
            assert(sum + v <= (i + 1) * 0xFFFF_FFFF) by (nonlinear_arith)
                requires
                    sum <= i * 0xFFFF_FFFF,
                    v <= 0xFFFF_FFFF,
            ;
            sum = sum + v;
            i = i + 1;
        }
        if min_ns == u64::MAX {
            min_ns = 0;
        }
        proof {
            lemma_seq_min_bounded(self.history@, count as int);
        }
        TickSnapshot { min_ns, max_ns, sum_ns: sum, count: count as u64 }
    }

    /// Number of ticks recorded so far (wrapping at `u32::MAX`).
    pub fn tick_count(&self) -> (n: u64)
        ensures
            n == self.recorded(),
    {
        self.cursor as u64
    }
}

proof fn lemma_seq_min_bounded(s: Seq<u32>, n: int)
    requires
        0 < n <= s.len(),
    ensures
        seq_min(s, n) <= u32::MAX,
    decreases n,
{
    if n > 1 {
        lemma_seq_min_bounded(s, n - 1);
    }
}

// ===========================================================================
// Watchdog
// ===========================================================================

/// A threshold watchdog that warns when a single tick exceeds its budget,
/// once per tick number.
pub struct TickWatchdog {
    /// Nanosecond threshold above which a warning is raised.
    threshold_ns: u64,
    /// Tick number of the last warning, if any was raised.
    last_warned_at: Option<u64>,
}

impl TickWatchdog {
    /// The threshold in nanoseconds.
    pub closed spec fn threshold(self) -> u64 {
        self.threshold_ns
    }

    /// The tick number of the last warning, `None` before any.
    pub closed spec fn last_warned(self) -> Option<u64> {
        self.last_warned_at
    }

    /// A watchdog with the given threshold that has not warned yet.
    pub fn new(threshold_ns: u64) -> (w: Self)
        ensures
            w.threshold() == threshold_ns,
            w.last_warned() is None,
    {
        TickWatchdog { threshold_ns, last_warned_at: None }
    }

    /// Check a tick's duration; returns whether a warning is raised.  A
    /// warning is raised when the duration exceeds the threshold and the
    /// tick has not been warned about already.
    pub fn check(&mut self, tick: u64, duration_ns: u64) -> (warn: bool)
        ensures
            warn == (duration_ns > old(self).threshold() && old(self).last_warned() != Some(
                tick,
            )),
            final(self).threshold() == old(self).threshold(),
            final(self).last_warned() == if warn {
                Some(tick)
            } else {
                old(self).last_warned()
            },
    {
        if duration_ns > self.threshold_ns {
            let already = match self.last_warned_at {
                Some(last) => last == tick,
                None => false,
            };
            if !already {
                self.last_warned_at = Some(tick);
                return true;
            }
        }
        false
    }
}

/// The watchdog's rule: a tick over budget is warned about exactly once,
/// the first time it is checked over budget, whatever tick was warned
/// about before (none at all included); two checks in a row for the same
/// tick never both warn.
pub proof fn lemma_watchdog_warns_once_per_tick(
    last: Option<u64>,
    threshold: u64,
    tick: u64,
    d1: u64,
    d2: u64,
)
    ensures
        ({
            let warn1 = d1 > threshold && last != Some(tick);
            let last1 = if warn1 {
                Some(tick)
            } else {
                last
            };
            let warn2 = d2 > threshold && last1 != Some(tick);
            &&& !(warn1 && warn2)
            &&& (d1 > threshold && last != Some(tick) ==> warn1)
            &&& (d1 > threshold || d2 > threshold) && last != Some(tick) ==> (warn1 || warn2)
        }),
{
}

// ===========================================================================
// Deadline schedule
// ===========================================================================

/// Nanoseconds in one second.
pub const NANOS_PER_SECOND: u128 = 1_000_000_000;

/// How far the next deadline moves after a tick of `tick_ns` when ticks
/// are `interval_ns` apart: one interval, or, when the tick overran by more
/// than one whole extra interval, enough intervals to skip the missed ones.
/// While sprinting the interval is 0 and the deadline does not move, so the
/// next tick starts at once.
pub open spec fn deadline_advance(tick_ns: u64, interval_ns: u64) -> int {
    if interval_ns == 0 {
        0
    } else if tick_ns > interval_ns {
        let missed = (tick_ns - interval_ns) / (interval_ns as int);
        if missed > 1 {
            interval_ns * (missed + 1)
        } else {
            interval_ns as int
        }
    } else {
        interval_ns as int
    }
}

/// How far the deadline moves, in terms of the tick alone: while
/// sprinting (interval 0) it does not move; a tick that missed at most one
/// whole period (it took less than three intervals) moves it one interval;
/// a tick that missed two or more whole periods moves it by whole intervals
/// past every missed period, so the new deadline is later than the tick's
/// start plus its overrun (no whole missed period is left to catch up) and
/// no later than the tick's own end.
pub proof fn lemma_deadline_skips_missed_periods(tick_ns: u64, interval_ns: u64)
    ensures
        interval_ns == 0 ==> deadline_advance(tick_ns, interval_ns) == 0,
        interval_ns > 0 && tick_ns < 3 * interval_ns ==> deadline_advance(tick_ns, interval_ns)
            == interval_ns,
        interval_ns > 0 && tick_ns >= 3 * interval_ns ==> {
            &&& deadline_advance(tick_ns, interval_ns) > tick_ns - interval_ns
            &&& deadline_advance(tick_ns, interval_ns) <= tick_ns
            &&& deadline_advance(tick_ns, interval_ns) % (interval_ns as int) == 0
        },
{
    if interval_ns > 0 && tick_ns > interval_ns {
        let w = interval_ns as int;
        let over = tick_ns - w;
        let m = over / w;
        let r = over % w;
        vstd::arithmetic::div_mod::lemma_fundamental_div_mod(over, w);
        vstd::arithmetic::div_mod::lemma_mod_pos_bound(over, w);
        assert(over == w * m + r);
        if tick_ns >= 3 * interval_ns {
            if m <= 1 {
                assert(w * m <= w) by (nonlinear_arith)
                    requires
                        m <= 1,
                        w > 0,
                ;
            }
            assert(m > 1);
            assert(w * (m + 1) == w * m + w) by (nonlinear_arith);
            vstd::arithmetic::mul::lemma_mul_is_commutative(w, m + 1);
            vstd::arithmetic::div_mod::lemma_mod_multiples_basic(m + 1, w);
        } else {
            if m >= 2 {
                assert(w * m >= 2 * w) by (nonlinear_arith)
                    requires
                        m >= 2,
                        w > 0,
                ;
            }
            assert(m <= 1);
        }
    }
}

/// The main loop's deadline schedule: the time (nanoseconds on a monotonic
/// clock) at which the next tick starts.
pub struct Ticker {
    next_tick: u128,
}

impl Ticker {
    /// The next deadline.
    pub closed spec fn deadline(self) -> u128 {
        self.next_tick
    }

    /// A schedule whose first tick starts at `now`.
    pub fn new(now: u128) -> (t: Self)
        ensures
            t.deadline() == now,
    {
        Ticker { next_tick: now }
    }

    /// The next deadline.
    pub fn next_tick(&self) -> (d: u128)
        ensures
            d == self.deadline(),
    {
        self.next_tick
    }

    /// Move the deadline after a tick that took `tick_ns` with ticks
    /// `interval_ns` apart (zero while sprinting); returns the new deadline.
    pub fn schedule_after_tick(&mut self, tick_ns: u64, interval_ns: u64) -> (d: u128)
        requires
            old(self).deadline() + deadline_advance(tick_ns, interval_ns) <= u128::MAX,
        ensures
            d == final(self).deadline(),
            final(self).deadline() == old(self).deadline() + deadline_advance(tick_ns, interval_ns),
    {
        let advance: u128 = if interval_ns == 0 {
            0
        } else if tick_ns > interval_ns {
            let overrun = tick_ns - interval_ns;
            let missed = overrun / interval_ns;
            if missed > 1 {
                assert(interval_ns * (missed + 1) <= 0xFFFF_FFFF_FFFF_FFFF * 0x1_0000_0000_0000_0000)
                    by (nonlinear_arith)
                    requires
                        missed + 1 <= 0x1_0000_0000_0000_0000,
                        interval_ns <= 0xFFFF_FFFF_FFFF_FFFF,
                ;
                interval_ns as u128 * (missed as u128 + 1)
            } else {
                interval_ns as u128
            }
        } else {
            interval_ns as u128
        };
        self.next_tick = self.next_tick + advance;
        self.next_tick
    }

    /// After waking at `now`, pull the deadline up to `now` if it lies more
    /// than five seconds in the past; returns whether it did.
    pub fn catch_up(&mut self, now: u128) -> (reset: bool)
        ensures
            reset == (now > old(self).deadline() && now - old(self).deadline() > 5
                * NANOS_PER_SECOND),
            final(self).deadline() == if reset {
                now
            } else {
                old(self).deadline()
            },
    {
        let behind: u128 = if now > self.next_tick {
            now - self.next_tick
        } else {
            0
        };
        if behind > 5 * NANOS_PER_SECOND {
            self.next_tick = now;
            true
        } else {
            false
        }
    }
}

} // verus!
