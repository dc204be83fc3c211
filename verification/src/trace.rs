//! What holds along every run of the pool.
//!
//! A run is a sequence of events, in the order in which the lock serialises
//! them. The pool in these statements remembers more than the shared state
//! does: which tasks arrived, which started, which run and which are done, and
//! what the monitor saw.

use crate::config::{Config, CPU_BUDGET};
use crate::laws::{
    law_dispatch_keeps_the_order, law_dispatch_needs_room, law_fifo_takes_the_front,
    law_idle_pool_makes_progress,
};
use crate::queue::{QueueView, Snapshot, Step};
use crate::task::{Task, NANOS_PER_MILLI};
use vstd::prelude::*;

verus! {

/// Something that happens to the pool.
pub enum Event {
    /// A task comes in.
    Arrive { task: Task },
    /// No more tasks come.
    Close,
    /// A worker looks at the queue.
    Ask { now: u64 },
    /// The running task at place `slot` is done.
    Finish { slot: int, now: u64 },
    /// The monitor looks at the pool.
    Look { now: u64 },
}

/// The shared state with the history of the tasks and of the monitor.
#[verifier::ext_equal]
pub struct Pool {
    pub state: QueueView,
    pub arrived: Seq<Task>,
    pub started: Seq<Task>,
    pub running: Seq<Task>,
    pub done: Seq<Task>,
    pub snapshots: Seq<Snapshot>,
}

/// The cost of several tasks together.
pub open spec fn total_cost(tasks: Seq<Task>) -> nat
    decreases tasks.len(),
{
    if tasks.len() == 0 {
        0
    } else {
        total_cost(tasks.drop_last()) + tasks.last().cpu_cost as nat
    }
}

/// What identifies a task throughout its life: all but the skips and the
/// instants that dispatch and completion record.
pub open spec fn identity(task: Task) -> Task {
    Task { start_time: None, finish_time: None, skip_count: 0, ..task }
}

/// The identities of several tasks, each as often as it occurs.
pub open spec fn identities(tasks: Seq<Task>) -> vstd::multiset::Multiset<Task> {
    tasks.map_values(|t: Task| identity(t)).to_multiset()
}

impl Pool {
    /// A pool to which nothing has happened.
    pub open spec fn initial() -> Pool {
        Pool {
            state: QueueView::initial(),
            arrived: Seq::empty(),
            started: Seq::empty(),
            running: Seq::empty(),
            done: Seq::empty(),
            snapshots: Seq::empty(),
        }
    }

    /// The pool after one more event. Only a running task can finish.
    pub open spec fn after(self, cfg: Config, event: Event) -> Pool {
        match event {
            Event::Arrive { task } => Pool {
                state: self.state.enqueue(task),
                arrived: self.arrived.push(task),
                ..self
            },
            Event::Close => Pool { state: self.state.close(), ..self },
            Event::Ask { now } => match self.state.step(cfg, now) {
                Step::Run { task, .. } => Pool {
                    state: self.state.after_step(cfg),
                    started: self.started.push(task),
                    running: self.running.push(task),
                    ..self
                },
                _ => Pool { state: self.state.after_step(cfg), ..self },
            },
            Event::Finish { slot, now } => if 0 <= slot < self.running.len() {
                Pool {
                    state: self.state.release(self.running[slot].cpu_cost),
                    running: self.running.remove(slot),
                    done: self.done.push(Task { finish_time: Some(now), ..self.running[slot] }),
                    ..self
                }
            } else {
                self
            },
            Event::Look { now } => Pool {
                snapshots: self.snapshots.push(self.state.snapshot(now)),
                ..self
            },
        }
    }

    /// The pool after a run from the start.
    pub open spec fn after_all(cfg: Config, events: Seq<Event>) -> Pool
        decreases events.len(),
    {
        if events.len() == 0 {
            Pool::initial()
        } else {
            Pool::after_all(cfg, events.drop_last()).after(cfg, events.last())
        }
    }

    /// The load is what the running tasks cost together and is within the
    /// budget; each running task holds one worker of the pool.
    pub open spec fn is_balanced(self, cfg: Config) -> bool {
        &&& self.state.active_cpu_load == total_cost(self.running)
        &&& self.state.active_cpu_load <= CPU_BUDGET
        &&& self.state.active_workers == self.running.len()
        &&& self.state.active_workers <= cfg.num_workers
    }

    /// Each task that arrived is queued, running or done, once.
    pub open spec fn keeps_every_task(self) -> bool {
        &&& identities(self.arrived) == identities(self.state.queue).add(
            identities(self.running),
        ).add(identities(self.done))
        &&& self.arrived.len() == self.state.queue.len() + self.running.len() + self.done.len()
    }

    /// Tasks have started in the order in which they arrived, with nothing
    /// left out, and those that have not started are queued untouched.
    pub open spec fn is_in_arrival_order(self) -> bool {
        &&& self.started.len() <= self.arrived.len()
        &&& self.state.queue == self.arrived.skip(self.started.len() as int)
        &&& forall|i: int|
            0 <= i < self.started.len() ==> #[trigger] self.started[i] == (Task {
                start_time: self.started[i].start_time,
                ..self.arrived[i]
            })
    }
}

/// At `now` the task has been running for its duration.
pub open spec fn is_long_enough(task: Task, now: u64) -> bool {
    task.start_time matches Some(started) ==> now >= started + task.duration_ms * NANOS_PER_MILLI
}

/// Each task that finishes in the run does so no earlier than its duration
/// after it started.
pub open spec fn tasks_run_for_their_duration(cfg: Config, events: Seq<Event>) -> bool
    decreases events.len(),
{
    events.len() > 0 ==> {
        let before = Pool::after_all(cfg, events.drop_last());
        &&& tasks_run_for_their_duration(cfg, events.drop_last())
        &&& match events.last() {
            Event::Finish { slot, now } => 0 <= slot < before.running.len() ==> is_long_enough(
                before.running[slot],
                now,
            ),
            _ => true,
        }
    }
}

/// The task has started, has finished after that, and ran for at least its
/// duration.
pub open spec fn ran_for_its_duration(task: Task) -> bool {
    &&& task.start_time is Some
    &&& task.finish_time is Some
    &&& task.finish_time->0 - task.start_time->0 >= task.duration_ms * NANOS_PER_MILLI
}

proof fn lemma_total_cost_remove(tasks: Seq<Task>, i: int)
    requires
        0 <= i < tasks.len(),
    ensures
        total_cost(tasks) == total_cost(tasks.remove(i)) + tasks[i].cpu_cost,
    decreases tasks.len(),
{
    if i == tasks.len() - 1 {
        assert(tasks.remove(i) =~= tasks.drop_last());
    } else {
        lemma_total_cost_remove(tasks.drop_last(), i);
        assert(tasks.remove(i).drop_last() =~= tasks.drop_last().remove(i));
        assert(tasks.remove(i).last() == tasks.last());
    }
}

proof fn lemma_identities_push(tasks: Seq<Task>, task: Task)
    ensures
        identities(tasks.push(task)) == identities(tasks).insert(identity(task)),
{
    broadcast use vstd::seq_lib::group_to_multiset_ensures;

    let f = |t: Task| identity(t);
    assert(tasks.push(task).map_values(f) =~= tasks.map_values(f).push(identity(task)));
}

proof fn lemma_identities_remove(tasks: Seq<Task>, i: int)
    requires
        0 <= i < tasks.len(),
    ensures
        identities(tasks.remove(i)) == identities(tasks).remove(identity(tasks[i])),
        identities(tasks).count(identity(tasks[i])) > 0,
{
    broadcast use vstd::seq_lib::group_to_multiset_ensures;

    let f = |t: Task| identity(t);
    let all = tasks.map_values(f);
    assert(tasks.remove(i).map_values(f) =~= all.remove(i));
    assert(all[i] == identity(tasks[i]));
    assert(all.contains(all[i]));
}

/// Dispatch takes one identity out of the queue and leaves the others alone.
proof fn lemma_identities_dispatch(state: QueueView, chosen: int)
    requires
        0 <= chosen < state.queue.len(),
    ensures
        identities(state.dispatch(chosen).queue) == identities(state.queue.remove(chosen)),
{
    let f = |t: Task| identity(t);
    assert(state.dispatch(chosen).queue.map_values(f) =~= state.queue.remove(chosen).map_values(f));
}

/// One event keeps the accounts of the pool balanced.
pub proof fn law_event_keeps_balance(pool: Pool, cfg: Config, event: Event)
    requires
        pool.is_balanced(cfg),
    ensures
        pool.after(cfg, event).is_balanced(cfg),
{
    match event {
        Event::Ask { now } => {
            law_dispatch_needs_room(pool.state, cfg);
            if let Step::Run { task, .. } = pool.state.step(cfg, now) {
                assert(pool.running.push(task).drop_last() =~= pool.running);
            }
        },
        Event::Finish { slot, .. } => {
            if 0 <= slot < pool.running.len() {
                lemma_total_cost_remove(pool.running, slot);
            }
        },
        _ => {},
    }
}

/// One event neither loses nor doubles a task.
pub proof fn law_event_keeps_every_task(pool: Pool, cfg: Config, event: Event)
    requires
        pool.keeps_every_task(),
    ensures
        pool.after(cfg, event).keeps_every_task(),
{
    let next = pool.after(cfg, event);
    match event {
        Event::Arrive { task } => {
            lemma_identities_push(pool.arrived, task);
            lemma_identities_push(pool.state.queue, task);
            assert(identities(next.arrived) =~= identities(next.state.queue).add(
                identities(next.running),
            ).add(identities(next.done)));
        },
        Event::Close | Event::Look { .. } => {},
        Event::Ask { now } => {
            law_dispatch_needs_room(pool.state, cfg);
            if let Step::Run { task, .. } = pool.state.step(cfg, now) {
                let chosen = pool.state.choice(cfg)->0;
                lemma_identities_dispatch(pool.state, chosen);
                lemma_identities_remove(pool.state.queue, chosen);
                lemma_identities_push(pool.running, task);
                assert(identity(task) == identity(pool.state.queue[chosen]));
                assert(identities(next.arrived) =~= identities(next.state.queue).add(
                    identities(next.running),
                ).add(identities(next.done)));
            }
        },
        Event::Finish { slot, now } => {
            if 0 <= slot < pool.running.len() {
                let finished = Task { finish_time: Some(now), ..pool.running[slot] };
                lemma_identities_remove(pool.running, slot);
                lemma_identities_push(pool.done, finished);
                assert(identity(finished) == identity(pool.running[slot]));
                assert(identities(next.arrived) =~= identities(next.state.queue).add(
                    identities(next.running),
                ).add(identities(next.done)));
            }
        },
    }
}

/// Along every run the load is what the running tasks cost together, the
/// budget is never exceeded and the pool never has more busy workers than it
/// has workers.
pub proof fn law_budget_is_never_exceeded(cfg: Config, events: Seq<Event>)
    ensures
        Pool::after_all(cfg, events).is_balanced(cfg),
    decreases events.len(),
{
    if events.len() > 0 {
        law_budget_is_never_exceeded(cfg, events.drop_last());
        law_event_keeps_balance(
            Pool::after_all(cfg, events.drop_last()),
            cfg,
            events.last(),
        );
    }
}

/// Along every run each task that arrived is queued, running or done, once.
pub proof fn law_no_task_is_lost(cfg: Config, events: Seq<Event>)
    ensures
        Pool::after_all(cfg, events).keeps_every_task(),
    decreases events.len(),
{
    if events.len() > 0 {
        law_no_task_is_lost(cfg, events.drop_last());
        law_event_keeps_every_task(Pool::after_all(cfg, events.drop_last()), cfg, events.last());
    } else {
        broadcast use vstd::seq_lib::group_to_multiset_ensures;

        let none = identities(Seq::empty());
        assert(Seq::<Task>::empty().map_values(|t: Task| identity(t)) =~= Seq::<Task>::empty());
        assert(none =~= none.add(none).add(none));
    }
}

/// Along every run each running task has a recorded start, and each task that
/// is done a recorded start and finish. Where no task finishes before its
/// duration is over, the two instants of a task that is done are at least its
/// duration apart.
pub proof fn law_done_tasks_have_started_and_finished(cfg: Config, events: Seq<Event>)
    ensures
        ({
            let pool = Pool::after_all(cfg, events);
            &&& forall|i: int|
                0 <= i < pool.running.len() ==> (#[trigger] pool.running[i]).start_time is Some
            &&& forall|i: int|
                0 <= i < pool.done.len() ==> (#[trigger] pool.done[i]).start_time is Some
                    && pool.done[i].finish_time is Some
            &&& tasks_run_for_their_duration(cfg, events) ==> forall|i: int|
                0 <= i < pool.done.len() ==> ran_for_its_duration(#[trigger] pool.done[i])
        }),
    decreases events.len(),
{
    if events.len() > 0 {
        law_done_tasks_have_started_and_finished(cfg, events.drop_last());
    }
}

/// When a budget-aware worker ends, nothing is queued, nothing runs, and every
/// task that arrived is done. When a worker under arrival order ends, every
/// task that arrived is done or still running.
pub proof fn law_workers_end_when_the_work_is_done(cfg: Config, events: Seq<Event>)
    requires
        Pool::after_all(cfg, events).state.is_over(cfg),
    ensures
        ({
            let pool = Pool::after_all(cfg, events);
            &&& pool.state.queue.len() == 0
            &&& pool.arrived.len() == pool.running.len() + pool.done.len()
            &&& cfg.policy is BudgetAware ==> pool.running.len() == 0
            &&& cfg.policy is BudgetAware ==> identities(pool.done) == identities(pool.arrived)
        }),
{
    law_budget_is_never_exceeded(cfg, events);
    law_no_task_is_lost(cfg, events);
    let pool = Pool::after_all(cfg, events);
    if cfg.policy is BudgetAware {
        broadcast use vstd::seq_lib::group_to_multiset_ensures;

        let f = |t: Task| identity(t);
        assert(pool.state.queue.map_values(f) =~= Seq::<Task>::empty());
        assert(pool.running.map_values(f) =~= Seq::<Task>::empty());
        assert(identities(pool.done) =~= identities(pool.arrived));
    }
}

/// Under arrival order, along every run tasks start in the order in which they
/// arrived.
pub proof fn law_fifo_starts_in_arrival_order(cfg: Config, events: Seq<Event>)
    requires
        cfg.policy is Fifo,
    ensures
        Pool::after_all(cfg, events).is_in_arrival_order(),
    decreases events.len(),
{
    if events.len() > 0 {
        law_fifo_starts_in_arrival_order(cfg, events.drop_last());
        let pool = Pool::after_all(cfg, events.drop_last());
        let next = Pool::after_all(cfg, events);
        match events.last() {
            Event::Arrive { task } => {
                assert(next.state.queue =~= next.arrived.skip(next.started.len() as int));
            },
            Event::Ask { now } => {
                law_fifo_takes_the_front(pool.state, cfg, now);
                if pool.state.step(cfg, now) is Run {
                    assert(next.state.queue =~= next.arrived.skip(next.started.len() as int));
                }
            },
            _ => {},
        }
    } else {
        assert(Seq::<Task>::empty() =~= Seq::<Task>::empty().skip(0));
    }
}

/// The pool never deadlocks: along every run with at least one worker and no
/// queued task above the whole budget, either nothing is queued, or a running
/// task can finish, or a worker that looks at the queue gets a task.
pub proof fn law_pool_never_deadlocks(cfg: Config, events: Seq<Event>, now: u64)
    requires
        cfg.num_workers > 0,
        forall|i: int|
            0 <= i < Pool::after_all(cfg, events).state.queue.len() ==> (
            #[trigger] Pool::after_all(cfg, events).state.queue[i]).cpu_cost <= CPU_BUDGET,
    ensures
        ({
            let pool = Pool::after_all(cfg, events);
            ||| pool.state.queue.len() == 0
            ||| pool.running.len() > 0
            ||| pool.state.step(cfg, now) is Run
        }),
{
    law_budget_is_never_exceeded(cfg, events);
    let pool = Pool::after_all(cfg, events);
    if pool.state.queue.len() > 0 && pool.running.len() == 0 {
        law_idle_pool_makes_progress(pool.state, cfg, now);
    }
}

/// The dispatches and completions that the tasks in the pool still need.
pub open spec fn work_left(pool: Pool) -> nat {
    2 * pool.state.queue.len() + pool.running.len()
}

/// Each dispatch and each completion brings the end nearer by one, and only an
/// arrival puts it off: what has arrived is done after finitely many of them.
pub proof fn law_every_step_counts(pool: Pool, cfg: Config, event: Event)
    ensures
        match event {
            Event::Arrive { .. } => work_left(pool.after(cfg, event)) == work_left(pool) + 2,
            Event::Close | Event::Look { .. } => work_left(pool.after(cfg, event)) == work_left(
                pool,
            ),
            Event::Ask { now } => work_left(pool.after(cfg, event)) == work_left(pool) - (
            if pool.state.step(cfg, now) is Run {
                1int
            } else {
                0int
            }),
            Event::Finish { slot, .. } => work_left(pool.after(cfg, event)) == work_left(pool) - (
            if 0 <= slot < pool.running.len() {
                1int
            } else {
                0int
            }),
        },
{
    law_dispatch_needs_room(pool.state, cfg);
    if pool.state.choice(cfg) is Some {
        law_dispatch_keeps_the_order(pool.state, pool.state.choice(cfg)->0);
    }
}

} // verus!
