//! What holds of every single step, whatever the state.

use crate::config::{Config, Policy, CPU_BUDGET};
use crate::queue::{
    aged_within, any_aged, first_where, is_first, kind_within, overtaken, place, within,
    QueueState, QueueView, Step, Wake,
};
use crate::task::{Kind, Task};
use vstd::prelude::*;

verus! {

/// A place exists where an accepted task stands first exactly when any task is
/// accepted.
proof fn lemma_first_exists(queue: Seq<Task>, accept: spec_fn(Task) -> bool, i: int)
    requires
        0 <= i < queue.len(),
        accept(queue[i]),
    ensures
        first_where(queue, accept) is Some,
    decreases i,
{
    if exists|j: int| 0 <= j < i && accept(#[trigger] queue[j]) {
        let j = choose|j: int| 0 <= j < i && accept(#[trigger] queue[j]);
        lemma_first_exists(queue, accept, j);
    } else {
        assert(is_first(queue, accept, i));
    }
}

/// A task is dispatched only out of the queue, only to a free worker and only
/// where its cost fits what remains of the budget.
pub proof fn law_dispatch_needs_room(state: QueueView, cfg: Config)
    ensures
        state.choice(cfg) matches Some(chosen) ==> {
            &&& 0 <= chosen < state.queue.len()
            &&& state.active_workers < cfg.num_workers
            &&& state.queue[chosen].cpu_cost <= state.remaining()
        },
{
}

/// A step keeps the load within the budget and the busy workers within the
/// pool, and when it runs a task both hold whatever was before.
pub proof fn law_step_keeps_budget(state: QueueView, cfg: Config, now: u64)
    ensures
        state.active_cpu_load <= CPU_BUDGET ==> state.after_step(cfg).active_cpu_load <= CPU_BUDGET,
        state.active_workers <= cfg.num_workers ==> state.after_step(cfg).active_workers
            <= cfg.num_workers,
        state.step(cfg, now) is Run ==> {
            &&& state.after_step(cfg).active_cpu_load <= CPU_BUDGET
            &&& state.after_step(cfg).active_workers <= cfg.num_workers
        },
{
    law_dispatch_needs_room(state, cfg);
}

/// Only a step that runs a task changes the state.
pub proof fn law_only_a_run_changes_the_state(state: QueueView, cfg: Config, now: u64)
    ensures
        state.step(cfg, now) is Run || state.after_step(cfg) == state,
        state.step(cfg, now) is Run <==> state.choice(cfg) is Some,
{
}

/// Giving back what a dispatched task took restores the workers and the load.
pub proof fn law_release_undoes_dispatch(state: QueueView, cfg: Config, chosen: int)
    requires
        state.choice(cfg) == Some(chosen),
    ensures
        state.after_step(cfg).release(state.queue[chosen].cpu_cost) == (QueueView {
            queue: state.after_step(cfg).queue,
            ..state
        }),
{
}

/// Under arrival order the dispatched task is the one at the front, and no
/// skip is ever counted.
pub proof fn law_fifo_takes_the_front(state: QueueView, cfg: Config, now: u64)
    requires
        cfg.policy is Fifo,
    ensures
        state.step(cfg, now) matches Step::Run { task, .. } ==> {
            &&& state.queue.len() > 0
            &&& task == (Task { start_time: Some(now), ..state.queue[0] })
            &&& state.after_step(cfg).queue == state.queue.skip(1)
        },
{
    if state.step(cfg, now) is Run {
        assert(state.after_step(cfg).queue =~= state.queue.skip(1));
    }
}

/// While any queued task is aged, no other task is dispatched: either an aged
/// task runs or none does.
pub proof fn law_aged_tasks_go_first(state: QueueView, cfg: Config, threshold: u32, now: u64)
    requires
        cfg.policy == (Policy::BudgetAware { aging_threshold: threshold }),
        any_aged(state.queue, threshold),
    ensures
        state.step(cfg, now) matches Step::Run { task, .. } ==> task.skip_count >= threshold,
{
}

/// With no aged task queued, a CPU task runs whenever the budget has room for
/// one and a queued one fits; failing that an IO task runs whenever one fits.
pub proof fn law_budget_decides_the_kind(state: QueueView, cfg: Config, threshold: u32, now: u64)
    requires
        cfg.policy == (Policy::BudgetAware { aging_threshold: threshold }),
        !any_aged(state.queue, threshold),
        state.active_workers < cfg.num_workers,
    ensures
        ({
            let room_for_cpu = state.remaining() >= cfg.cpu_cpu_cost;
            let cpu_fits = exists|i: int|
                0 <= i < state.queue.len() && kind_within(Kind::Cpu, state.remaining())(
                    #[trigger] state.queue[i],
                );
            let io_fits = exists|i: int|
                0 <= i < state.queue.len() && kind_within(Kind::Io, state.remaining())(
                    #[trigger] state.queue[i],
                );
            &&& room_for_cpu && cpu_fits ==> state.step(cfg, now) is Run
            &&& room_for_cpu && cpu_fits ==> state.step(cfg, now)->task.kind == Kind::Cpu
            &&& !(room_for_cpu && cpu_fits) && io_fits ==> state.step(cfg, now) is Run
            &&& !(room_for_cpu && cpu_fits) && io_fits ==> state.step(cfg, now)->task.kind
                == Kind::Io
        }),
{
    let cpu = kind_within(Kind::Cpu, state.remaining());
    let io = kind_within(Kind::Io, state.remaining());
    if exists|i: int| 0 <= i < state.queue.len() && cpu(#[trigger] state.queue[i]) {
        let i = choose|i: int| 0 <= i < state.queue.len() && cpu(#[trigger] state.queue[i]);
        lemma_first_exists(state.queue, cpu, i);
    }
    if exists|i: int| 0 <= i < state.queue.len() && io(#[trigger] state.queue[i]) {
        let i = choose|i: int| 0 <= i < state.queue.len() && io(#[trigger] state.queue[i]);
        lemma_first_exists(state.queue, io, i);
    }
}

/// A budget-aware worker with a free slot leaves the queue alone only where no
/// queued task fits, or where an aged task is waiting and no aged task fits.
pub proof fn law_budget_is_used(state: QueueView, cfg: Config, threshold: u32)
    requires
        cfg.policy == (Policy::BudgetAware { aging_threshold: threshold }),
        state.active_workers < cfg.num_workers,
        state.choice(cfg) is None,
    ensures
        forall|i: int|
            0 <= i < state.queue.len() && (#[trigger] state.queue[i]).cpu_cost <= state.remaining()
                ==> any_aged(state.queue, threshold) && state.queue[i].skip_count < threshold,
{
    let left = state.remaining();
    assert forall|i: int|
        0 <= i < state.queue.len() && (#[trigger] state.queue[i]).cpu_cost <= left implies any_aged(
        state.queue,
        threshold,
    ) && state.queue[i].skip_count < threshold by {
        if any_aged(state.queue, threshold) {
            if state.queue[i].skip_count >= threshold {
                lemma_first_exists(state.queue, aged_within(threshold, left), i);
            }
        } else {
            lemma_first_exists(state.queue, within(left), i);
        }
    }
}

/// An idle pool never sleeps on work that it can do: with at least one worker
/// and no task above the whole budget, a non-empty queue yields a task to run,
/// under either policy.
pub proof fn law_idle_pool_makes_progress(state: QueueView, cfg: Config, now: u64)
    requires
        state.active_workers == 0,
        state.active_cpu_load == 0,
        cfg.num_workers > 0,
        state.queue.len() > 0,
        forall|i: int| 0 <= i < state.queue.len() ==> (#[trigger] state.queue[i]).cpu_cost <= CPU_BUDGET,
    ensures
        state.step(cfg, now) is Run,
{
    match cfg.policy {
        Policy::Fifo => {},
        Policy::BudgetAware { aging_threshold } => {
            if state.choice(cfg) is None {
                law_budget_is_used(state, cfg, aging_threshold);
                let i = choose|i: int|
                    0 <= i < state.queue.len() && (#[trigger] state.queue[i]).skip_count
                        >= aging_threshold;
                assert(any_aged(state.queue, aging_threshold)) by {
                    assert(state.queue[0].cpu_cost <= state.remaining());
                }
                assert(state.queue[i].cpu_cost <= state.remaining());
            }
        },
    }
}

/// Once a worker has nothing left to do, none of the others ever has again:
/// no step, no close and no finished task changes that.
pub proof fn law_the_end_is_final(state: QueueView, cfg: Config, now: u64, cpu_cost: u32)
    requires
        state.is_over(cfg),
    ensures
        state.step(cfg, now) == Step::Exit,
        state.after_step(cfg) == state,
        state.close() == state,
        state.active_workers > 0 ==> state.release(cpu_cost).is_over(cfg),
{
}

/// Budget-aware workers sleep without a timeout, and none is left asleep when
/// the end comes: the operation that brings the end about wakes them all.
pub proof fn law_the_end_wakes_everyone(state: QueueView, cfg: Config, now: u64, cpu_cost: u32)
    requires
        cfg.policy is BudgetAware,
        !state.is_over(cfg),
    ensures
        !state.after_step(cfg).is_over(cfg),
        state.active_workers > 0 && state.release(cpu_cost).is_over(cfg)
            ==> state.wake_after_release(cfg.policy) == Wake::All,
        state.step(cfg, now) matches Step::Wait { timeout_ms } ==> timeout_ms is None,
{
}

/// Workers under arrival order sleep with a timeout, so each of them looks
/// again by itself.
pub proof fn law_fifo_workers_look_again(state: QueueView, cfg: Config, now: u64)
    requires
        cfg.policy is Fifo,
    ensures
        state.step(cfg, now) matches Step::Wait { timeout_ms } ==> timeout_ms is Some,
{
}

/// Whatever frees or leaves work for a budget-aware worker wakes at least one:
/// a step that leaves tasks queued, and a task that is done.
pub proof fn law_work_wakes_someone(state: QueueView, cfg: Config, now: u64)
    requires
        cfg.policy is BudgetAware,
    ensures
        state.step(cfg, now) matches Step::Run { wake, .. } ==> {
            wake == (if state.after_step(cfg).queue.len() > 0 {
                Wake::One
            } else {
                Wake::Nobody
            })
        },
        state.wake_after_release(cfg.policy) != Wake::Nobody,
{
}

/// Dispatch keeps the order of the queue: those ahead of the task that leaves
/// stay where they are and count one more skip, those behind it move up
/// unchanged.
pub proof fn law_dispatch_keeps_the_order(state: QueueView, chosen: int)
    requires
        0 <= chosen < state.queue.len(),
    ensures
        ({
            let queue = state.dispatch(chosen).queue;
            &&& queue.len() == state.queue.len() - 1
            &&& forall|i: int| 0 <= i < chosen ==> #[trigger] queue[i] == overtaken(state.queue[i])
            &&& forall|i: int|
                chosen <= i < queue.len() ==> #[trigger] queue[i] == state.queue[i + 1]
        }),
{
}

/// The shared state is seen as it is: the queue in its order, the counts and
/// the mark.
pub proof fn law_the_view_shows_the_state(state: QueueState)
    ensures
        state@.queue == state.queue@,
        state@.active_workers == state.active_workers,
        state@.active_cpu_load == state.active_cpu_load,
        state@.generation_done == state.generation_done,
        forall|i: usize| #[trigger] place(Some(i)) == Some(i as int),
        place(None) is None,
{
}

/// Under either policy a chosen task is one of the queue, a worker is free for
/// it, and with it the load stays within the budget.
pub proof fn law_a_chosen_task_fits(state: QueueView, cfg: Config)
    ensures
        state.choice(cfg) matches Some(chosen) ==> {
            &&& 0 <= chosen < state.queue.len()
            &&& state.active_workers < cfg.num_workers
            &&& state.active_cpu_load + state.queue[chosen].cpu_cost <= CPU_BUDGET
        },
{
}

/// Under arrival order the front of the queue runs whenever a worker is free
/// and the front fits the budget, and otherwise nothing runs.
pub proof fn law_fifo_runs_the_front_whenever_it_fits(state: QueueView, cfg: Config, now: u64)
    requires
        cfg.policy is Fifo,
    ensures
        ({
            let front_fits = state.queue.len() > 0 && state.active_workers < cfg.num_workers
                && state.active_cpu_load + state.queue[0].cpu_cost <= CPU_BUDGET;
            &&& front_fits ==> state.choice(cfg) == Some(0int)
            &&& front_fits ==> state.step(cfg, now) is Run
            &&& front_fits ==> state.step(cfg, now)->task == (Task {
                start_time: Some(now),
                ..state.queue[0]
            })
            &&& !front_fits ==> state.choice(cfg) is None
            &&& !front_fits ==> !(state.step(cfg, now) is Run)
        }),
{
}

/// The budget-aware choice passes over no better task. Take any queued task
/// that fits the budget while a worker is free:
///
/// - if it is aged, an aged task is chosen, from its place or ahead of it;
/// - with no aged task queued, if it is a CPU task and the budget has room for
///   one, a CPU task is chosen, from its place or ahead of it;
/// - with no aged task queued and no CPU task to choose, if it is an IO task,
///   an IO task is chosen, from its place or ahead of it;
/// - with no aged task, no CPU task and no IO task to choose, a task is chosen
///   from its place or ahead of it.
pub proof fn law_no_better_task_is_passed_over(
    state: QueueView,
    cfg: Config,
    threshold: u32,
    other: int,
)
    requires
        cfg.policy == (Policy::BudgetAware { aging_threshold: threshold }),
        state.active_workers < cfg.num_workers,
        0 <= other < state.queue.len(),
        state.active_cpu_load + state.queue[other].cpu_cost <= CPU_BUDGET,
    ensures
        ({
            let task = state.queue[other];
            let none_aged = forall|i: int|
                0 <= i < state.queue.len() ==> (#[trigger] state.queue[i]).skip_count < threshold;
            let cpu_is_due = state.active_cpu_load + cfg.cpu_cpu_cost <= CPU_BUDGET && exists|
                i: int,
            |
                0 <= i < state.queue.len() && (#[trigger] state.queue[i]).kind == Kind::Cpu
                    && state.active_cpu_load + state.queue[i].cpu_cost <= CPU_BUDGET;
            let io_fits = exists|i: int|
                0 <= i < state.queue.len() && (#[trigger] state.queue[i]).kind == Kind::Io
                    && state.active_cpu_load + state.queue[i].cpu_cost <= CPU_BUDGET;
            let choice = state.choice(cfg);
            let chosen = state.queue[choice->0];
            &&& task.skip_count >= threshold ==> choice is Some && choice->0 <= other
                && chosen.skip_count >= threshold
            &&& none_aged && task.kind == Kind::Cpu && cpu_is_due ==> choice is Some && choice->0
                <= other && chosen.kind == Kind::Cpu
            &&& none_aged && task.kind == Kind::Io && !cpu_is_due ==> choice is Some && choice->0
                <= other && chosen.kind == Kind::Io
            &&& none_aged && !cpu_is_due && !io_fits ==> choice is Some && choice->0 <= other
        }),
{
    let left = state.remaining();
    let aged = aged_within(threshold, left);
    let cpu = kind_within(Kind::Cpu, left);
    let io = kind_within(Kind::Io, left);
    let any = within(left);
    let task = state.queue[other];
    if task.skip_count >= threshold {
        lemma_first_is_ahead(state.queue, aged, other);
    }
    lemma_first_is_ahead(state.queue, any, other);
    if task.kind == Kind::Cpu {
        lemma_first_is_ahead(state.queue, cpu, other);
    } else {
        lemma_first_is_ahead(state.queue, io, other);
    }
    if let Some(i) = first_where(state.queue, cpu) {
        assert(is_first(state.queue, cpu, i));
        assert(state.queue[i].kind == Kind::Cpu);
    }
    if let Some(i) = first_where(state.queue, io) {
        assert(is_first(state.queue, io, i));
        assert(state.queue[i].kind == Kind::Io);
    }
}

proof fn lemma_first_is_ahead(queue: Seq<Task>, accept: spec_fn(Task) -> bool, i: int)
    requires
        0 <= i < queue.len(),
        accept(queue[i]),
    ensures
        first_where(queue, accept) matches Some(first) && first <= i && is_first(
            queue,
            accept,
            first,
        ),
{
    lemma_first_exists(queue, accept, i);
    let first = first_where(queue, accept)->0;
    assert(is_first(queue, accept, first));
    if i < first {
        assert(!accept(queue[i]));
    }
}

/// While a task is aged, only an aged task is chosen, wherever in the queue
/// they stand and whether or not they fit.
pub proof fn law_only_aged_tasks_pass_an_aged_task(
    state: QueueView,
    cfg: Config,
    threshold: u32,
    aged: int,
)
    requires
        cfg.policy == (Policy::BudgetAware { aging_threshold: threshold }),
        0 <= aged < state.queue.len(),
        state.queue[aged].skip_count >= threshold,
    ensures
        state.choice(cfg) matches Some(chosen) ==> state.queue[chosen].skip_count >= threshold,
{
    assert(any_aged(state.queue, threshold));
}

/// Under either policy a dispatched task is the chosen one, with the instant
/// of its dispatch for its start and all else as it stood in the queue.
pub proof fn law_dispatch_stamps_the_instant(state: QueueView, cfg: Config, now: u64)
    ensures
        state.step(cfg, now) matches Step::Run { task, .. } ==> {
            let queued = state.queue[state.choice(cfg)->0];
            &&& state.choice(cfg) is Some
            &&& task.start_time == Some(now)
            &&& task.id == queued.id
            &&& task.kind == queued.kind
            &&& task.cpu_cost == queued.cpu_cost
            &&& task.duration_ms == queued.duration_ms
            &&& task.arrival_time == queued.arrival_time
            &&& task.enqueue_time == queued.enqueue_time
            &&& task.finish_time == queued.finish_time
            &&& task.skip_count == queued.skip_count
        },
{
}

/// A task that is dispatched at some instant after it was queued has waited
/// for the time in between, under either policy.
pub proof fn law_dispatch_ends_the_wait(state: QueueView, cfg: Config, now: u64, queued: u64)
    requires
        state.step(cfg, now) is Run,
        state.queue[state.choice(cfg)->0].enqueue_time == Some(queued),
        queued <= now,
    ensures
        ({
            let waited = state.step(cfg, now)->task.waited();
            waited * 1_000_000 <= now - queued < (waited + 1) * 1_000_000
        }),
{
}

/// The clock decides nothing: at any two instants a worker gets the same
/// answer, but for the instant that a dispatched task is stamped with.
pub proof fn law_the_clock_decides_nothing(state: QueueView, cfg: Config, a: u64, b: u64)
    ensures
        match (state.step(cfg, a), state.step(cfg, b)) {
            (Step::Exit, Step::Exit) => true,
            (Step::Wait { timeout_ms: s }, Step::Wait { timeout_ms: t }) => s == t,
            (Step::Run { task: s, wake: v }, Step::Run { task: t, wake: w }) => v == w && s == (
            Task { start_time: Some(a), ..t }),
            _ => false,
        },
{
}

/// Every state has one answer. A worker ends exactly when no more tasks come,
/// none is queued and, where the policy is budget-aware, none runs. Short of
/// that it runs a task exactly when one is chosen, and else sleeps: for five
/// milliseconds at most under arrival order, until woken otherwise.
pub proof fn law_every_state_has_one_answer(state: QueueView, cfg: Config, now: u64)
    ensures
        state.step(cfg, now) is Exit <==> state.generation_done && state.queue.len() == 0 && (
        cfg.policy is Fifo || state.active_workers == 0),
        state.step(cfg, now) is Run <==> state.choice(cfg) is Some,
        state.step(cfg, now) matches Step::Wait { timeout_ms } ==> match cfg.policy {
            Policy::Fifo => timeout_ms == Some(5u64),
            Policy::BudgetAware { .. } => timeout_ms is None,
        },
        state.step(cfg, now) matches Step::Run { wake, .. } ==> match cfg.policy {
            Policy::Fifo => wake == Wake::Nobody,
            Policy::BudgetAware { .. } => if state.queue.len() == 1 {
                wake == Wake::Nobody
            } else {
                wake == Wake::One
            },
        },
{
}

/// A dispatch takes one task out of the queue, one worker and the task's cost.
/// Each task ahead of the chosen one counts one skip more and is otherwise as
/// it was, each task behind it moves up as it was. Without a choice nothing
/// changes, and the mark never does.
pub proof fn law_a_step_takes_what_it_runs(state: QueueView, cfg: Config)
    requires
        state.choice(cfg) matches Some(chosen) ==> forall|i: int|
            0 <= i < chosen ==> (#[trigger] state.queue[i]).skip_count < u32::MAX,
    ensures
        ({
            let next = state.after_step(cfg);
            &&& next.generation_done == state.generation_done
            &&& match state.choice(cfg) {
                None => next == state,
                Some(chosen) => {
                    &&& next.active_workers == state.active_workers + 1
                    &&& next.active_cpu_load == state.active_cpu_load
                        + state.queue[chosen].cpu_cost
                    &&& next.queue.len() == state.queue.len() - 1
                    &&& forall|i: int|
                        0 <= i < chosen ==> (#[trigger] next.queue[i]).skip_count
                            == state.queue[i].skip_count + 1 && next.queue[i] == (Task {
                            skip_count: next.queue[i].skip_count,
                            ..state.queue[i]
                        })
                    &&& forall|i: int|
                        chosen <= i < next.queue.len() ==> #[trigger] next.queue[i]
                            == state.queue[i + 1]
                },
            }
        }),
{
    law_a_chosen_task_fits(state, cfg);
}

/// A step is refused exactly where it would overtake a task whose skips are at
/// the greatest number that can be counted.
pub proof fn law_only_a_full_count_refuses_a_step(state: QueueView, cfg: Config)
    ensures
        state.counters_have_room(cfg) <==> match state.choice(cfg) {
            None => true,
            Some(chosen) => forall|i: int|
                0 <= i < chosen ==> (#[trigger] state.queue[i]).skip_count != u32::MAX,
        },
{
}

/// A new queue is empty and open, and nothing runs.
pub proof fn law_a_new_queue_is_empty_and_open()
    ensures
        QueueView::initial().queue.len() == 0,
        QueueView::initial().active_workers == 0,
        QueueView::initial().active_cpu_load == 0,
        !QueueView::initial().generation_done,
{
}

/// A task that comes in stands behind all others, as it came, and changes
/// nothing else.
pub proof fn law_tasks_come_in_at_the_back(state: QueueView, task: Task)
    ensures
        ({
            let next = state.enqueue(task);
            &&& next.queue.len() == state.queue.len() + 1
            &&& next.queue[state.queue.len() as int] == task
            &&& forall|i: int|
                0 <= i < state.queue.len() ==> #[trigger] next.queue[i] == state.queue[i]
            &&& next.active_workers == state.active_workers
            &&& next.active_cpu_load == state.active_cpu_load
            &&& next.generation_done == state.generation_done
        }),
{
}

/// Closing sets the mark and changes nothing else.
pub proof fn law_closing_only_sets_the_mark(state: QueueView)
    ensures
        state.close().generation_done,
        state.close().queue == state.queue,
        state.close().active_workers == state.active_workers,
        state.close().active_cpu_load == state.active_cpu_load,
{
}

/// A task that is done gives back one worker and its cost, and changes nothing
/// else.
pub proof fn law_release_gives_back_what_was_held(state: QueueView, cpu_cost: u32)
    requires
        state.active_workers > 0,
        state.active_cpu_load >= cpu_cost,
    ensures
        state.release(cpu_cost).active_workers + 1 == state.active_workers,
        state.release(cpu_cost).active_cpu_load + cpu_cost == state.active_cpu_load,
        state.release(cpu_cost).queue == state.queue,
        state.release(cpu_cost).generation_done == state.generation_done,
{
}

/// When a task is done, every worker is woken under arrival order. Otherwise
/// one is, or all of them where no more tasks come and none is queued.
pub proof fn law_release_wakes_who_has_work(state: QueueView, policy: Policy)
    ensures
        policy is Fifo ==> state.wake_after_release(policy) == Wake::All,
        policy is BudgetAware && state.generation_done && state.queue.len() == 0
            ==> state.wake_after_release(policy) == Wake::All,
        policy is BudgetAware && !state.generation_done ==> state.wake_after_release(policy)
            == Wake::One,
        policy is BudgetAware && state.queue.len() > 0 ==> state.wake_after_release(policy)
            == Wake::One,
{
}

/// A snapshot shows the load and the busy workers as they are, and the whole
/// milliseconds since the start of the run.
pub proof fn law_a_snapshot_shows_the_pool(state: QueueView, now: u64)
    requires
        state.active_cpu_load <= u32::MAX,
        state.active_workers <= usize::MAX,
    ensures
        ({
            let snapshot = state.snapshot(now);
            &&& snapshot.cpu_load == state.active_cpu_load
            &&& snapshot.active_workers == state.active_workers
            &&& snapshot.time_ms * 1_000_000 <= now < (snapshot.time_ms + 1) * 1_000_000
        }),
{
}

} // verus!
