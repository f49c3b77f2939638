//! Task scheduler for plugins and internal delayed or repeating tasks.
//!
//! The scheduler keeps a queue of tasks keyed by the tick at which they are
//! due. Each server tick pops the due tasks earliest first, drops those whose
//! id was cancelled, and hands the rest out to be run; a repeating task that
//! ran is queued again `period` ticks later.

use std::collections::HashSet;
use vstd::prelude::*;
use vstd::multiset::Multiset;

verus! {

/// Identifier of a scheduled task.
pub type TaskId = u32;

/// Per-task execution time limit, in milliseconds: the tick budget is
/// 50 ms and a task may use at most this much of it.
#[derive(Debug, Clone, Copy, PartialEq, Eq, Structural)]
pub struct TickTimeoutConfig {
    pub max_task_duration_ms: u64,
}

impl Default for TickTimeoutConfig {
    /// 45 ms, leaving 5 ms of the 50 ms tick for the rest of the tick loop.
    fn default() -> (c: Self)
        ensures
            c.max_task_duration_ms == 45,
    {
        TickTimeoutConfig { max_task_duration_ms: 45 }
    }
}

/// A task waiting in the scheduler: which plugin handler to call, and when.
pub struct ScheduledTask<P> {
    pub id: TaskId,
    pub plugin: P,
    pub handler_id: u32,
    pub next_tick: u64,
    pub period: Option<u64>,
}

/// Whether `t` is due at `current_tick`.
pub open spec fn is_due<P>(t: ScheduledTask<P>, current_tick: u64) -> bool {
    t.next_tick <= current_tick
}

/// Tasks listed earliest due tick first.
pub open spec fn earliest_first<P>(s: Seq<ScheduledTask<P>>) -> bool {
    forall|i: int, j: int| 0 <= i <= j < s.len() ==> s[i].next_tick <= s[j].next_tick
}

/// Going through popped tasks in order: a task whose id is in the cancelled
/// set is dropped and its id leaves the set; every other task runs. The
/// tasks that run, and the cancelled set afterwards.
pub open spec fn skip_cancelled<P>(popped: Seq<ScheduledTask<P>>, cancelled: Set<TaskId>) -> (
    Seq<ScheduledTask<P>>,
    Set<TaskId>,
)
    decreases popped.len(),
{
    if popped.len() == 0 {
        (Seq::empty(), cancelled)
    } else {
        let (run, c) = skip_cancelled(popped.drop_last(), cancelled);
        let t = popped.last();
        if c.contains(t.id) {
            (run, c.remove(t.id))
        } else {
            (run.push(t), c)
        }
    }
}

/// The id after `id`, wrapping to 0 after `u32::MAX`.
pub open spec fn following_id(id: u32) -> u32 {
    if id == u32::MAX {
        0
    } else {
        (id + 1) as u32
    }
}

/// What a tick queues again after running `run` at `current_tick`: the
/// tasks of `run` that repeat, in run order, each the same task (same id,
/// plugin, handler and period, so cancelling its id still reaches it) now
/// due one period after `current_tick`; one-shot tasks are not queued
/// again.
pub proof fn lemma_requeue_keeps_tasks<P>(run: Seq<ScheduledTask<P>>, current_tick: u64)
    ensures
        requeued(run, current_tick) == run.filter(|t: ScheduledTask<P>| t.period is Some).map_values(
            |t: ScheduledTask<P>|
                ScheduledTask {
                    id: t.id,
                    plugin: t.plugin,
                    handler_id: t.handler_id,
                    next_tick: current_tick.wrapping_add(t.period->0),
                    period: t.period,
                },
        ),
        forall|k: int|
            0 <= k < requeued(run, current_tick).len() ==> exists|j: int|
                0 <= j < run.len() && (#[trigger] run[j]).period is Some && (#[trigger] requeued(
                    run,
                    current_tick,
                )[k]).id == run[j].id && requeued(run, current_tick)[k].plugin == run[j].plugin
                    && requeued(run, current_tick)[k].handler_id == run[j].handler_id && requeued(
                    run,
                    current_tick,
                )[k].period == run[j].period,
    decreases run.len(),
{
    let rep = |t: ScheduledTask<P>| t.period is Some;
    let again = |t: ScheduledTask<P>|
        ScheduledTask {
            id: t.id,
            plugin: t.plugin,
            handler_id: t.handler_id,
            next_tick: current_tick.wrapping_add(t.period->0),
            period: t.period,
        };
    if run.len() == 0 {
        assert(run.filter(rep) =~= Seq::<ScheduledTask<P>>::empty()) by {
            reveal_with_fuel(Seq::filter, 1);
        }
        assert(run.filter(rep).map_values(again) =~= Seq::<ScheduledTask<P>>::empty());
    } else {
        let init = run.drop_last();
        let t = run.last();
        lemma_requeue_keeps_tasks(init, current_tick);
        assert(run.filter(rep) == if rep(t) {
            init.filter(rep).push(t)
        } else {
            init.filter(rep)
        }) by {
            reveal_with_fuel(Seq::filter, 1);
            assert(run =~= init.push(t));
        }
        if rep(t) {
            assert(init.filter(rep).push(t).map_values(again) =~= init.filter(rep).map_values(
                again,
            ).push(again(t)));
        }
        let rq = requeued(run, current_tick);
        let r0 = requeued(init, current_tick);
        assert forall|k: int| 0 <= k < rq.len() implies exists|j: int|
            0 <= j < run.len() && (#[trigger] run[j]).period is Some && (#[trigger] rq[k]).id == run[j].id
                && rq[k].plugin == run[j].plugin && rq[k].handler_id == run[j].handler_id
                && rq[k].period == run[j].period by {
            if k < r0.len() {
                let j = choose|j: int|
                    0 <= j < init.len() && (#[trigger] init[j]).period is Some && r0[k].id
                        == init[j].id && r0[k].plugin == init[j].plugin && r0[k].handler_id
                        == init[j].handler_id && r0[k].period == init[j].period;
                assert(run[j] == init[j]);
            } else {
                assert(run[run.len() - 1] == t);
            }
        }
    }
}

/// The id a fresh scheduler hands out after `n` earlier schedule calls.
pub open spec fn id_after(n: nat) -> u32
    decreases n,
{
    if n == 0 {
        0
    } else {
        following_id(id_after((n - 1) as nat))
    }
}

/// A fresh scheduler starts at id 0 and each schedule call hands out the
/// next id ([`TaskScheduler::new`], [`TaskScheduler::schedule_delayed_task`],
/// [`TaskScheduler::schedule_repeating_task`]), so the `k`-th call returns
/// `k`, for every `k` below `2^32`; after `2^32` calls the ids start again
/// from 0.
pub proof fn lemma_ids_count_up(k: nat)
    requires
        k <= 0x1_0000_0000,
    ensures
        k < 0x1_0000_0000 ==> id_after(k) == k,
        k == 0x1_0000_0000 ==> id_after(k) == 0,
    decreases k,
{
    if k > 0 {
        lemma_ids_count_up((k - 1) as nat);
    }
}

/// The ids of a sequence of tasks.
pub open spec fn task_ids<P>(s: Seq<ScheduledTask<P>>) -> Set<TaskId> {
    Set::new(|id: TaskId| exists|i: int| 0 <= i < s.len() && s[i].id == id)
}

/// The queue entries a tick adds back after running `run` at
/// `current_tick`: each task that repeats with period `p`, in run order,
/// now due at `current_tick + p` (wrapping past `u64::MAX`).
pub open spec fn requeued<P>(run: Seq<ScheduledTask<P>>, current_tick: u64) -> Seq<ScheduledTask<P>>
    decreases run.len(),
{
    if run.len() == 0 {
        Seq::empty()
    } else {
        let before = requeued(run.drop_last(), current_tick);
        let t = run.last();
        match t.period {
            Some(p) => before.push(
                ScheduledTask {
                    id: t.id,
                    plugin: t.plugin,
                    handler_id: t.handler_id,
                    next_tick: current_tick.wrapping_add(p),
                    period: t.period,
                },
            ),
            None => before,
        }
    }
}

/// A tick-driven task scheduler.
pub struct TaskScheduler<P> {
    tasks: Vec<ScheduledTask<P>>,
    cancelled_tasks: HashSet<TaskId>,
    next_task_id: u32,
    timeout_config: TickTimeoutConfig,
}

impl<P: Copy> TaskScheduler<P> {
    /// The queued tasks, in the order they were queued.
    pub closed spec fn queued(&self) -> Seq<ScheduledTask<P>> {
        self.tasks@
    }

    /// The queued tasks, as a multiset: the queue has no order of its own.
    pub open spec fn pending(&self) -> Multiset<ScheduledTask<P>> {
        self.queued().to_multiset()
    }

    /// The ids whose next dispatch will be dropped.
    pub closed spec fn cancelled(&self) -> Set<TaskId> {
        self.cancelled_tasks@
    }

    /// The id the next scheduled task will get.
    pub closed spec fn next_id(&self) -> u32 {
        self.next_task_id
    }

    /// The per-task time limit.
    pub closed spec fn timeout(&self) -> TickTimeoutConfig {
        self.timeout_config
    }

    /// An empty scheduler with the default time limit.
    pub fn new() -> (s: Self)
        ensures
            s.queued() == Seq::<ScheduledTask<P>>::empty(),
            s.cancelled() == Set::<TaskId>::empty(),
            s.next_id() == 0,
            s.timeout().max_task_duration_ms == 45,
    {
        TaskScheduler {
            tasks: Vec::new(),
            cancelled_tasks: HashSet::new(),
            next_task_id: 0,
            timeout_config: TickTimeoutConfig::default(),
        }
    }

    /// Replace the per-task time limit.
    pub fn set_timeout_config(&mut self, config: TickTimeoutConfig)
        ensures
            final(self).timeout() == config,
            final(self).queued() == old(self).queued(),
            final(self).cancelled() == old(self).cancelled(),
            final(self).next_id() == old(self).next_id(),
    {
        self.timeout_config = config;
    }

    /// The per-task time limit.
    pub fn timeout_config(&self) -> (c: TickTimeoutConfig)
        ensures
            c == self.timeout(),
    {
        self.timeout_config
    }

    /// Queue a task due `delay` ticks after `current_tick`; `period` makes
    /// it repeat.
    fn push_task(
        &mut self,
        plugin: P,
        handler_id: u32,
        delay: u64,
        period: Option<u64>,
        current_tick: u64,
    ) -> (id: TaskId)
        requires
            current_tick + delay <= u64::MAX,
        ensures
            id == old(self).next_id(),
            final(self).next_id() == following_id(old(self).next_id()),
            final(self).queued() == old(self).queued().push(
                ScheduledTask {
                    id,
                    plugin,
                    handler_id,
                    next_tick: (current_tick + delay) as u64,
                    period,
                },
            ),
            final(self).cancelled() == old(self).cancelled(),
            final(self).timeout() == old(self).timeout(),
    {
        let id = self.next_task_id;
        self.next_task_id = if id == u32::MAX {
            0
        } else {
            id + 1
        };
        self.tasks.push(
            ScheduledTask { id, plugin, handler_id, next_tick: current_tick + delay, period },
        );
        id
    }

    /// Schedule a one-shot task due `delay` ticks after `current_tick`.
    pub fn schedule_delayed_task(
        &mut self,
        plugin: P,
        handler_id: u32,
        delay: u64,
        current_tick: u64,
    ) -> (id: TaskId)
        requires
            current_tick + delay <= u64::MAX,
        ensures
            id == old(self).next_id(),
            final(self).next_id() == following_id(old(self).next_id()),
            final(self).queued() == old(self).queued().push(
                ScheduledTask {
                    id,
                    plugin,
                    handler_id,
                    next_tick: (current_tick + delay) as u64,
                    period: None,
                },
            ),
            final(self).cancelled() == old(self).cancelled(),
            final(self).timeout() == old(self).timeout(),
    {
        self.push_task(plugin, handler_id, delay, None, current_tick)
    }

    /// Schedule a task first due `delay` ticks after `current_tick`, then
    /// every `period` ticks.
    pub fn schedule_repeating_task(
        &mut self,
        plugin: P,
        handler_id: u32,
        delay: u64,
        period: u64,
        current_tick: u64,
    ) -> (id: TaskId)
        requires
            current_tick + delay <= u64::MAX,
        ensures
            id == old(self).next_id(),
            final(self).next_id() == following_id(old(self).next_id()),
            final(self).queued() == old(self).queued().push(
                ScheduledTask {
                    id,
                    plugin,
                    handler_id,
                    next_tick: (current_tick + delay) as u64,
                    period: Some(period),
                },
            ),
            final(self).cancelled() == old(self).cancelled(),
            final(self).timeout() == old(self).timeout(),
    {
        self.push_task(plugin, handler_id, delay, Some(period), current_tick)
    }

    /// Cancel a task by id: its next dispatch is dropped.
    pub fn cancel_task(&mut self, id: TaskId)
        ensures
            final(self).cancelled() == old(self).cancelled().insert(id),
            final(self).queued() == old(self).queued(),
            final(self).next_id() == old(self).next_id(),
            final(self).timeout() == old(self).timeout(),
    {
        broadcast use vstd::std_specs::hash::group_hash_axioms;

        self.cancelled_tasks.insert(id);
    }

    /// Cancel every queued task whose plugin `is_plugin` accepts.
    pub fn cancel_all_tasks<F: Fn(&P) -> bool>(&mut self, is_plugin: F)
        requires
            forall|i: int|
                0 <= i < old(self).queued().len() ==> call_requires(
                    is_plugin,
                    (&old(self).queued()[i].plugin,),
                ),
        ensures
            exists|matched: Seq<bool>|
                {
                    &&& matched.len() == old(self).queued().len()
                    &&& forall|i: int|
                        0 <= i < matched.len() ==> call_ensures(
                            is_plugin,
                            (&old(self).queued()[i].plugin,),
                            #[trigger] matched[i],
                        )
                    &&& final(self).cancelled() == old(self).cancelled().union(
                        Set::new(
                            |id: TaskId|
                                exists|i: int|
                                    0 <= i < matched.len() && matched[i] && old(self).queued()[i].id
                                        == id,
                        ),
                    )
                },
            final(self).queued() == old(self).queued(),
            final(self).next_id() == old(self).next_id(),
            final(self).timeout() == old(self).timeout(),
    {
        broadcast use vstd::std_specs::hash::group_hash_axioms;

        let ghost mut matched: Seq<bool> = Seq::empty();
        let mut i: usize = 0;
        assert forall|j: int| 0 <= j < self.tasks@.len() implies call_requires(
            is_plugin,
            (&self.tasks@[j].plugin,),
        ) by {
            assert(call_requires(is_plugin, (&old(self).queued()[j].plugin,)));
        }
        assert(self.cancelled_tasks@ =~= old(self).cancelled_tasks@.union(
            Set::new(
                |id: TaskId|
                    exists|j: int| 0 <= j < matched.len() && matched[j] && self.tasks@[j].id == id,
            ),
        ));
        while i < self.tasks.len()
            invariant
                i <= self.tasks@.len(),
                self.tasks@ == old(self).tasks@,
                self.next_task_id == old(self).next_task_id,
                self.timeout_config == old(self).timeout_config,
                matched.len() == i,
                forall|j: int|
                    0 <= j < self.tasks@.len() ==> call_requires(
                        is_plugin,
                        (&self.tasks@[j].plugin,),
                    ),
                forall|j: int|
                    0 <= j < i ==> call_ensures(
                        is_plugin,
                        (&self.tasks@[j].plugin,),
                        #[trigger] matched[j],
                    ),
                self.cancelled_tasks@ == old(self).cancelled_tasks@.union(
                    Set::new(
                        |id: TaskId|
                            exists|j: int|
                                0 <= j < matched.len() && matched[j] && self.tasks@[j].id == id,
                    ),
                ),
            decreases self.tasks@.len() - i,
        {
            let hit = is_plugin(&self.tasks[i].plugin);
            let ghost before = self.cancelled_tasks@;
            let ghost m0 = matched;
            if hit {
                let id = self.tasks[i].id;
                self.cancelled_tasks.insert(id);
            }
            proof {
                matched = matched.push(hit);
                let tasks = self.tasks@;
                assert(self.cancelled_tasks@ =~= old(self).cancelled_tasks@.union(
                    Set::new(
                        |id: TaskId|
                            exists|j: int|
                                0 <= j < matched.len() && matched[j] && tasks[j].id == id,
                    ),
                )) by {
                    assert forall|id: TaskId|
                        #![trigger self.cancelled_tasks@.contains(id)]
                        self.cancelled_tasks@.contains(id) <==> (old(
                            self,
                        ).cancelled_tasks@.contains(id) || exists|j: int|
                            0 <= j < matched.len() && matched[j] && tasks[j].id == id) by {
                        if exists|j: int| 0 <= j < m0.len() && m0[j] && tasks[j].id == id {
                            let j = choose|j: int| 0 <= j < m0.len() && m0[j] && tasks[j].id == id;
                            assert(matched[j] == m0[j]);
                        }
                        if exists|j: int|
                            0 <= j < matched.len() && matched[j] && tasks[j].id == id {
                            let j = choose|j: int|
                                0 <= j < matched.len() && matched[j] && tasks[j].id == id;
                            if j < m0.len() {
                                assert(m0[j] == matched[j]);
                            }
                        }
                        if hit && id == tasks[i as int].id {
                            assert(matched[i as int]);
                        }
                    }
                }
            }
            i = i + 1;
        }
    }

    /// Advance the scheduler to `current_tick`.
    ///
    /// Unless a shutdown was requested, this pops every task due at
    /// `current_tick`, earliest first; a popped task whose id is cancelled
    /// is dropped (and its id leaves the cancelled set), the others are
    /// returned in pop order to be run, and each of those that repeats is
    /// queued again, due `period` ticks after `current_tick` (wrapping past
    /// `u64::MAX`). Tasks not yet
    /// due stay queued. After a shutdown request nothing changes and nothing
    /// is returned.
    pub fn tick(&mut self, current_tick: u64, shutdown_requested: bool) -> (run: Vec<
        ScheduledTask<P>,
    >)
        ensures
            shutdown_requested ==> run@ == Seq::<ScheduledTask<P>>::empty() && final(self).queued()
                == old(self).queued() && final(self).cancelled() == old(self).cancelled(),
            !shutdown_requested ==> exists|popped: Seq<ScheduledTask<P>>|
                {
                    &&& popped.to_multiset() == old(self).pending().filter(
                        |t: ScheduledTask<P>| is_due(t, current_tick),
                    )
                    &&& final(self).pending() == old(self).pending().filter(
                        |t: ScheduledTask<P>| !is_due(t, current_tick),
                    ).add(requeued(run@, current_tick).to_multiset())
                    &&& earliest_first(popped)
                    &&& skip_cancelled(popped, old(self).cancelled()) == (
                        run@,
                        final(self).cancelled(),
                    )
                },
            final(self).next_id() == old(self).next_id(),
            final(self).timeout() == old(self).timeout(),
    {
        broadcast use vstd::std_specs::hash::group_hash_axioms;

        let mut run: Vec<ScheduledTask<P>> = Vec::new();
        if shutdown_requested {
            return run;
        }
        let ghost mut popped: Seq<ScheduledTask<P>> = Seq::empty();
        proof {
            lemma_split_multiset(popped, self.tasks@);
        }
        loop
            invariant
                old(self).tasks@.to_multiset() == popped.to_multiset().add(
                    self.tasks@.to_multiset(),
                ),
                forall|i: int| 0 <= i < popped.len() ==> #[trigger] popped[i].next_tick
                    <= current_tick,
                earliest_first(popped),
                forall|i: int, j: int|
                    0 <= i < popped.len() && 0 <= j < self.tasks@.len() ==> popped[i].next_tick
                        <= self.tasks@[j].next_tick,
                skip_cancelled(popped, old(self).cancelled_tasks@) == (
                    run@,
                    self.cancelled_tasks@,
                ),
                self.next_task_id == old(self).next_task_id,
                self.timeout_config == old(self).timeout_config,
            ensures
                old(self).tasks@.to_multiset() == popped.to_multiset().add(
                    self.tasks@.to_multiset(),
                ),
                forall|i: int| 0 <= i < popped.len() ==> #[trigger] popped[i].next_tick
                    <= current_tick,
                forall|j: int| 0 <= j < self.tasks@.len() ==> #[trigger] self.tasks@[j].next_tick
                    > current_tick,
                earliest_first(popped),
                skip_cancelled(popped, old(self).cancelled_tasks@) == (
                    run@,
                    self.cancelled_tasks@,
                ),
                self.next_task_id == old(self).next_task_id,
                self.timeout_config == old(self).timeout_config,
            decreases self.tasks@.len(),
        {
            if self.tasks.len() == 0 {
                break;
            }
            let mut best: usize = 0;
            let mut k: usize = 1;
            while k < self.tasks.len()
                invariant
                    best < k <= self.tasks@.len(),
                    forall|j: int| 0 <= j < k ==> self.tasks@[best as int].next_tick
                        <= #[trigger] self.tasks@[j].next_tick,
                decreases self.tasks@.len() - k,
            {
                if self.tasks[k].next_tick < self.tasks[best].next_tick {
                    best = k;
                }
                k = k + 1;
            }
            if self.tasks[best].next_tick > current_tick {
                break;
            }
            let ghost before = self.tasks@;
            let ghost p0 = popped;
            let task = self.tasks.remove(best);
            proof {
                popped = popped.push(task);
                lemma_pop_multiset(p0, before, best as int);
                assert(popped.drop_last() =~= p0);
                assert forall|i: int, j: int|
                    0 <= i < popped.len() && 0 <= j < self.tasks@.len() implies popped[i].next_tick
                    <= self.tasks@[j].next_tick by {
                    if j < best {
                        assert(self.tasks@[j] == before[j]);
                    } else {
                        assert(self.tasks@[j] == before[j + 1]);
                    }
                    if i < p0.len() {
                        assert(popped[i] == p0[i]);
                    }
                }
                assert forall|i: int| 0 <= i < popped.len() implies #[trigger] popped[i].next_tick
                    <= current_tick by {
                    if i < p0.len() {
                        assert(popped[i] == p0[i]);
                    }
                }
                assert forall|i: int, j: int|
                    0 <= i <= j < popped.len() implies popped[i].next_tick
                    <= popped[j].next_tick by {
                    if j < p0.len() {
                        assert(popped[i] == p0[i] && popped[j] == p0[j]);
                    } else if i < p0.len() {
                        assert(popped[i] == p0[i]);
                    }
                }
            }
            let was_cancelled = self.cancelled_tasks.remove(&task.id);
            if !was_cancelled {
                run.push(task);
            }
        }
        proof {
            lemma_due_split(popped, self.tasks@, old(self).tasks@, current_tick);
        }
        let ghost rest = self.tasks@;
        let ghost cancelled_after = self.cancelled_tasks@;
        proof {
            broadcast use vstd::multiset::group_multiset_axioms;

            assert(run@.take(0) =~= Seq::<ScheduledTask<P>>::empty());
            vstd::seq_lib::to_multiset_len(requeued(run@.take(0), current_tick));
            vstd::multiset::lemma_multiset_empty_len(
                requeued(run@.take(0), current_tick).to_multiset(),
            );
            assert(rest.to_multiset() =~= rest.to_multiset().add(
                requeued(run@.take(0), current_tick).to_multiset(),
            ));
        }
        let mut i: usize = 0;
        while i < run.len()
            invariant
                i <= run@.len(),
                self.tasks@.to_multiset() == rest.to_multiset().add(
                    requeued(run@.take(i as int), current_tick).to_multiset(),
                ),
                self.cancelled_tasks@ == cancelled_after,
                self.next_task_id == old(self).next_task_id,
                self.timeout_config == old(self).timeout_config,
            decreases run@.len() - i,
        {
            let ghost before = self.tasks@;
            assert(run@.take(i as int + 1).drop_last() =~= run@.take(i as int));
            assert(run@.take(i as int + 1).last() == run@[i as int]);
            if let Some(period) = run[i].period {
                let again = ScheduledTask {
                    id: run[i].id,
                    plugin: run[i].plugin,
                    handler_id: run[i].handler_id,
                    next_tick: current_tick.wrapping_add(period),
                    period: run[i].period,
                };
                self.tasks.push(again);
                proof {
                    broadcast use vstd::multiset::group_multiset_axioms;
                    broadcast use vstd::seq_lib::group_to_multiset_ensures;

                    let r0 = requeued(run@.take(i as int), current_tick);
                    assert(requeued(run@.take(i as int + 1), current_tick) == r0.push(again));
                    assert(self.tasks@ =~= before.push(again));
                    assert(self.tasks@.to_multiset() =~= rest.to_multiset().add(
                        r0.push(again).to_multiset(),
                    ));
                }
            }
            i = i + 1;
        }
        assert(run@.take(run@.len() as int) =~= run@);
        run
    }

    /// Number of queued tasks.
    pub fn len(&self) -> (n: usize)
        ensures
            n == self.queued().len(),
    {
        self.tasks.len()
    }
}

impl<P: Copy> Default for TaskScheduler<P> {
    /// An empty scheduler with the default time limit.
    fn default() -> (s: Self)
        ensures
            s.queued() == Seq::<ScheduledTask<P>>::empty(),
            s.cancelled() == Set::<TaskId>::empty(),
            s.next_id() == 0,
            s.timeout().max_task_duration_ms == 45,
    {
        Self::new()
    }
}

proof fn lemma_split_multiset<A>(empty: Seq<A>, s: Seq<A>)
    requires
        empty.len() == 0,
    ensures
        s.to_multiset() == empty.to_multiset().add(s.to_multiset()),
{
    broadcast use vstd::multiset::group_multiset_axioms;

    vstd::seq_lib::to_multiset_len(empty);
    vstd::multiset::lemma_multiset_empty_len(empty.to_multiset());
    assert(s.to_multiset() =~= empty.to_multiset().add(s.to_multiset()));
}

proof fn lemma_pop_multiset<A>(popped: Seq<A>, tasks: Seq<A>, i: int)
    requires
        0 <= i < tasks.len(),
    ensures
        popped.to_multiset().add(tasks.to_multiset()) == popped.push(tasks[i]).to_multiset().add(
            tasks.remove(i).to_multiset(),
        ),
{
    broadcast use vstd::multiset::group_multiset_axioms;
    broadcast use vstd::seq_lib::group_to_multiset_ensures;

    assert(popped.to_multiset().add(tasks.to_multiset()) =~= popped.push(
        tasks[i],
    ).to_multiset().add(tasks.remove(i).to_multiset()));
}

proof fn lemma_due_split<P>(
    popped: Seq<ScheduledTask<P>>,
    rest: Seq<ScheduledTask<P>>,
    all: Seq<ScheduledTask<P>>,
    current_tick: u64,
)
    requires
        all.to_multiset() == popped.to_multiset().add(rest.to_multiset()),
        forall|i: int| 0 <= i < popped.len() ==> #[trigger] popped[i].next_tick <= current_tick,
        forall|j: int| 0 <= j < rest.len() ==> #[trigger] rest[j].next_tick > current_tick,
    ensures
        popped.to_multiset() == all.to_multiset().filter(
            |t: ScheduledTask<P>| is_due(t, current_tick),
        ),
        rest.to_multiset() == all.to_multiset().filter(
            |t: ScheduledTask<P>| !is_due(t, current_tick),
        ),
{
    broadcast use vstd::multiset::group_multiset_axioms;
    broadcast use vstd::seq_lib::group_to_multiset_ensures;

    let due = |t: ScheduledTask<P>| is_due(t, current_tick);
    let not_due = |t: ScheduledTask<P>| !is_due(t, current_tick);
    assert forall|v: ScheduledTask<P>| #[trigger]
        popped.to_multiset().count(v) == all.to_multiset().filter(due).count(v) by {
        if v.next_tick <= current_tick {
            if rest.to_multiset().count(v) > 0 {
                assert(rest.contains(v));
                let j = choose|j: int| 0 <= j < rest.len() && rest[j] == v;
                assert(rest[j].next_tick > current_tick);
            }
        } else {
            if popped.to_multiset().count(v) > 0 {
                assert(popped.contains(v));
                let i = choose|i: int| 0 <= i < popped.len() && popped[i] == v;
                assert(popped[i].next_tick <= current_tick);
            }
        }
    }
    assert forall|v: ScheduledTask<P>| #[trigger]
        rest.to_multiset().count(v) == all.to_multiset().filter(not_due).count(v) by {
        if v.next_tick <= current_tick {
            if rest.to_multiset().count(v) > 0 {
                assert(rest.contains(v));
                let j = choose|j: int| 0 <= j < rest.len() && rest[j] == v;
                assert(rest[j].next_tick > current_tick);
            }
        } else {
            if popped.to_multiset().count(v) > 0 {
                assert(popped.contains(v));
                let i = choose|i: int| 0 <= i < popped.len() && popped[i] == v;
                assert(popped[i].next_tick <= current_tick);
            }
        }
    }
    assert(popped.to_multiset() =~= all.to_multiset().filter(due));
    assert(rest.to_multiset() =~= all.to_multiset().filter(not_due));
}

/// When the popped tasks carry distinct ids, exactly those whose id was not
/// cancelled run, in pop order, and every popped id leaves the cancelled
/// set: a cancelled task never runs.
pub proof fn lemma_cancelled_tasks_never_run<P>(
    popped: Seq<ScheduledTask<P>>,
    cancelled: Set<TaskId>,
)
    requires
        forall|i: int, j: int|
            0 <= i < j < popped.len() ==> #[trigger] popped[i].id != #[trigger] popped[j].id,
    ensures
        skip_cancelled(popped, cancelled).0 == popped.filter(
            |t: ScheduledTask<P>| !cancelled.contains(t.id),
        ),
        skip_cancelled(popped, cancelled).1 == cancelled.difference(task_ids(popped)),
    decreases popped.len(),
{
    let keep = |t: ScheduledTask<P>| !cancelled.contains(t.id);
    if popped.len() == 0 {
        assert(cancelled.difference(task_ids(popped)) =~= cancelled);
    } else {
        let init = popped.drop_last();
        let t = popped.last();
        lemma_cancelled_tasks_never_run(init, cancelled);
        assert(popped.filter(keep) == if keep(t) {
            init.filter(keep).push(t)
        } else {
            init.filter(keep)
        }) by {
            reveal_with_fuel(Seq::filter, 1);
        }
        let c = skip_cancelled(init, cancelled).1;
        assert(!task_ids(init).contains(t.id)) by {
            if task_ids(init).contains(t.id) {
                let j = choose|j: int| 0 <= j < init.len() && init[j].id == t.id;
                assert(popped[j].id == popped[popped.len() - 1].id);
            }
        }
        assert(c.contains(t.id) == cancelled.contains(t.id));
        assert(cancelled.difference(task_ids(popped)) =~= c.remove(t.id)) by {
            assert forall|id: TaskId| #[trigger]
                task_ids(popped).contains(id) <==> (task_ids(init).contains(id) || id == t.id) by {
                if task_ids(popped).contains(id) {
                    let j = choose|j: int| 0 <= j < popped.len() && popped[j].id == id;
                    if j < init.len() {
                        assert(init[j] == popped[j]);
                    }
                }
                if task_ids(init).contains(id) {
                    let j = choose|j: int| 0 <= j < init.len() && init[j].id == id;
                    assert(popped[j] == init[j]);
                }
                if id == t.id {
                    assert(popped[popped.len() - 1].id == id);
                }
            }
        }
        if !cancelled.contains(t.id) {
            assert(cancelled.difference(task_ids(popped)) =~= c) by {
                assert forall|id: TaskId| #[trigger]
                    task_ids(popped).contains(id) <==> (task_ids(init).contains(id) || id
                        == t.id) by {
                    if task_ids(popped).contains(id) {
                        let j = choose|j: int| 0 <= j < popped.len() && popped[j].id == id;
                        if j < init.len() {
                            assert(init[j] == popped[j]);
                        }
                    }
                    if task_ids(init).contains(id) {
                        let j = choose|j: int| 0 <= j < init.len() && init[j].id == id;
                        assert(popped[j] == init[j]);
                    }
                    if id == t.id {
                        assert(popped[popped.len() - 1].id == id);
                    }
                }
            }
        }
    }
}

/// A tick runs every task that was queued and due and whose id was not
/// cancelled, provided the due tasks carry distinct ids; and it runs no task
/// that was not yet due.
pub proof fn lemma_due_task_runs<P>(
    queued: Seq<ScheduledTask<P>>,
    popped: Seq<ScheduledTask<P>>,
    cancelled: Set<TaskId>,
    current_tick: u64,
    task: ScheduledTask<P>,
)
    requires
        popped.to_multiset() == queued.to_multiset().filter(
            |t: ScheduledTask<P>| is_due(t, current_tick),
        ),
        forall|i: int, j: int|
            0 <= i < j < popped.len() ==> #[trigger] popped[i].id != #[trigger] popped[j].id,
    ensures
        queued.contains(task) && is_due(task, current_tick) && !cancelled.contains(task.id)
            ==> skip_cancelled(popped, cancelled).0.contains(task),
        forall|t: ScheduledTask<P>|
            #[trigger] skip_cancelled(popped, cancelled).0.contains(t) ==> is_due(t, current_tick),
{
    broadcast use vstd::multiset::group_multiset_axioms;
    broadcast use vstd::seq_lib::group_to_multiset_ensures;
    broadcast use vstd::seq_lib::group_filter_ensures;

    let due = |t: ScheduledTask<P>| is_due(t, current_tick);
    let keep = |t: ScheduledTask<P>| !cancelled.contains(t.id);
    lemma_cancelled_tasks_never_run(popped, cancelled);
    let run = skip_cancelled(popped, cancelled).0;
    assert(run == popped.filter(keep));
    if queued.contains(task) && is_due(task, current_tick) && !cancelled.contains(task.id) {
        assert(queued.to_multiset().count(task) > 0);
        assert(queued.to_multiset().filter(due).count(task) > 0);
        assert(popped.contains(task));
        let i = choose|i: int| 0 <= i < popped.len() && popped[i] == task;
        assert(keep(popped[i]));
    }
    assert forall|t: ScheduledTask<P>| #[trigger] run.contains(t) implies is_due(
        t,
        current_tick,
    ) by {
        assert(popped.filter(keep).contains(t));
        popped.lemma_filter_contains_rev(keep, t);
        assert(popped.to_multiset().count(t) > 0);
        assert(queued.to_multiset().filter(due).count(t) > 0);
    }
}

} // verus!
