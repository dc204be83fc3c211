//! Why aging prevents starvation: a task that has been skipped often enough
//! waits for a bounded number of further dispatches.

use crate::config::{Config, Policy, CPU_BUDGET};
use crate::intake::{arrivals, law_only_a_close_closes};
use crate::laws::{law_budget_is_used, law_dispatch_keeps_the_order, law_dispatch_needs_room};
use crate::queue::{any_aged, aged_within, first_where, is_first, overtaken, QueueView, Step};
use crate::task::Task;
use crate::trace::{law_no_task_is_lost, Event, Pool};
use vstd::prelude::*;

verus! {

/// No task behind place `last` of the queue is aged.
pub open spec fn none_aged_behind(queue: Seq<Task>, threshold: u32, last: int) -> bool {
    forall|i: int| last < i < queue.len() ==> (#[trigger] queue[i]).skip_count < threshold
}

/// One queued task followed through a run.
pub struct Watched {
    pub pool: Pool,
    /// Where the task now stands in the queue.
    pub place: int,
    /// How many tasks were dispatched while it was queued.
    pub dispatches: nat,
}

/// The task at `place` of the queue followed through a run, or nothing once it
/// has been dispatched itself.
pub open spec fn watch(pool: Pool, cfg: Config, place: int, events: Seq<Event>) -> Option<Watched>
    decreases events.len(),
{
    if events.len() == 0 {
        Some(Watched { pool, place, dispatches: 0 })
    } else {
        match watch(pool, cfg, place, events.drop_last()) {
            None => None,
            Some(before) => {
                let next = before.pool.after(cfg, events.last());
                if events.last() is Ask && before.pool.state.choice(cfg) is Some {
                    let chosen = before.pool.state.choice(cfg)->0;
                    if chosen == before.place {
                        None
                    } else {
                        Some(
                            Watched {
                                pool: next,
                                place: if chosen < before.place {
                                    before.place - 1
                                } else {
                                    before.place
                                },
                                dispatches: before.dispatches + 1,
                            },
                        )
                    }
                } else {
                    Some(Watched { pool: next, ..before })
                }
            },
        }
    }
}

/// Up to the dispatch of the watched task, no step of the run comes upon a
/// skip count that is at its maximum.
pub open spec fn counts_in_range(pool: Pool, cfg: Config, place: int, events: Seq<Event>) -> bool
    decreases events.len(),
{
    events.len() > 0 ==> {
        &&& counts_in_range(pool, cfg, place, events.drop_last())
        &&& watch(pool, cfg, place, events.drop_last()) matches Some(before) ==> events.last()
            is Ask ==> before.pool.state.counters_have_room(cfg)
    }
}

/// Every task that comes in during the run has not aged yet.
pub open spec fn arrivals_are_fresh(events: Seq<Event>, threshold: u32) -> bool {
    forall|i: int|
        0 <= i < events.len() ==> (#[trigger] events[i] matches Event::Arrive { task }
            ==> task.skip_count < threshold)
}

/// The budget-aware choice is an aged task while any task is aged.
proof fn lemma_choice_is_aged(state: QueueView, cfg: Config, threshold: u32, place: int)
    requires
        cfg.policy == (Policy::BudgetAware { aging_threshold: threshold }),
        0 <= place < state.queue.len(),
        state.queue[place].skip_count >= threshold,
        state.choice(cfg) is Some,
    ensures
        state.queue[state.choice(cfg)->0].skip_count >= threshold,
        0 <= state.choice(cfg)->0 < state.queue.len(),
{
    assert(any_aged(state.queue, threshold));
    let accept = aged_within(threshold, state.remaining());
    assert(first_where(state.queue, accept) is Some);
    assert(is_first(state.queue, accept, state.choice(cfg)->0));
}

/// One dispatch moves the bound on the places of aged tasks one place towards
/// the front, and leaves an aged task that stays queued aged.
proof fn lemma_dispatch_draws_aged_nearer(
    state: QueueView,
    cfg: Config,
    threshold: u32,
    place: int,
    last: int,
)
    requires
        cfg.policy == (Policy::BudgetAware { aging_threshold: threshold }),
        0 <= place < state.queue.len(),
        state.queue[place].skip_count >= threshold,
        none_aged_behind(state.queue, threshold, last),
        state.counters_have_room(cfg),
        state.choice(cfg) is Some,
        state.choice(cfg)->0 != place,
    ensures
        ({
            let chosen = state.choice(cfg)->0;
            let queue = state.after_step(cfg).queue;
            let moved = if chosen < place {
                place - 1
            } else {
                place
            };
            &&& 0 <= moved < queue.len()
            &&& chosen <= last
            &&& none_aged_behind(queue, threshold, last - 1)
            &&& queue[moved].skip_count == state.queue[place].skip_count + (if chosen < place {
                0int
            } else {
                1int
            })
            &&& queue[moved] == (Task {
                skip_count: queue[moved].skip_count,
                ..state.queue[place]
            })
        }),
{
    let chosen = state.choice(cfg)->0;
    let queue = state.after_step(cfg).queue;
    lemma_choice_is_aged(state, cfg, threshold, place);
    law_dispatch_keeps_the_order(state, chosen);
    assert forall|i: int| last - 1 < i < queue.len() implies (#[trigger] queue[i]).skip_count
        < threshold by {
        assert(queue[i] == state.queue[i + 1]);
    }
    if chosen < place {
        assert(queue[place - 1] == state.queue[place]);
    } else {
        assert(queue[place] == overtaken(state.queue[place]));
    }
}

/// A skip count says what its name says: while a task is queued, under either
/// policy, its skips grow by one for each task dispatched from behind it and
/// by nothing else. A task dispatched from ahead of it moves it up instead.
pub proof fn law_skips_count_overtakers(
    pool: Pool,
    cfg: Config,
    place: int,
    events: Seq<Event>,
)
    requires
        0 <= place < pool.state.queue.len(),
        counts_in_range(pool, cfg, place, events),
    ensures
        watch(pool, cfg, place, events) matches Some(now) ==> {
            let task = now.pool.state.queue[now.place];
            let before = pool.state.queue[place];
            &&& 0 <= now.place <= place
            &&& now.place < now.pool.state.queue.len()
            &&& task == (Task { skip_count: task.skip_count, ..before })
            &&& task.skip_count - before.skip_count == now.dispatches - (place - now.place)
            &&& cfg.policy is Fifo ==> task == before
        },
    decreases events.len(),
{
    if events.len() > 0 {
        law_skips_count_overtakers(pool, cfg, place, events.drop_last());
        if let Some(before) = watch(pool, cfg, place, events.drop_last()) {
            let state = before.pool.state;
            if events.last() is Ask && state.choice(cfg) is Some {
                law_dispatch_needs_room(state, cfg);
                law_dispatch_keeps_the_order(state, state.choice(cfg)->0);
                if state.choice(cfg)->0 < before.place {
                    let queue = state.after_step(cfg).queue;
                    assert(queue[before.place - 1] == state.queue[before.place]);
                }
            }
        }
    }
}

/// Starvation is bounded. Let a queued task be aged, and let no task behind
/// place `last` be aged. For as long as the task is then queued, however the
/// run goes on, it only ever moves towards the front; at most `last` other
/// tasks are dispatched, and at most `last` less its own place of them
/// overtake it, each adding one to its skips.
pub proof fn law_aged_task_waits_boundedly(
    pool: Pool,
    cfg: Config,
    threshold: u32,
    place: int,
    last: int,
    events: Seq<Event>,
)
    requires
        cfg.policy == (Policy::BudgetAware { aging_threshold: threshold }),
        0 <= place < pool.state.queue.len(),
        pool.state.queue[place].skip_count >= threshold,
        none_aged_behind(pool.state.queue, threshold, last),
        arrivals_are_fresh(events, threshold),
        counts_in_range(pool, cfg, place, events),
    ensures
        watch(pool, cfg, place, events) matches Some(now) ==> {
            let task = now.pool.state.queue[now.place];
            let before = pool.state.queue[place];
            &&& 0 <= now.place <= place
            &&& now.place < now.pool.state.queue.len()
            &&& task == (Task { skip_count: task.skip_count, ..before })
            &&& task.skip_count >= threshold
            &&& now.dispatches <= last - now.place
            &&& task.skip_count - before.skip_count == now.dispatches - (place - now.place)
            &&& task.skip_count - before.skip_count <= last - place
            &&& none_aged_behind(now.pool.state.queue, threshold, last - now.dispatches)
        },
    decreases events.len(),
{
    if events.len() > 0 {
        let earlier = events.drop_last();
        lemma_fresh_so_far(events, threshold);
        law_aged_task_waits_boundedly(pool, cfg, threshold, place, last, earlier);
        if let Some(before) = watch(pool, cfg, place, earlier) {
            let bound = last - before.dispatches;
            let state = before.pool.state;
            if events.last() is Ask && state.choice(cfg) is Some && state.choice(cfg)->0
                != before.place {
                lemma_dispatch_draws_aged_nearer(state, cfg, threshold, before.place, bound);
            }
        }
    }
}

/// Up to the dispatch of the watched task, the queue is never longer than
/// `longest`.
pub open spec fn queue_stays_within(
    pool: Pool,
    cfg: Config,
    place: int,
    events: Seq<Event>,
    longest: nat,
) -> bool
    decreases events.len(),
{
    &&& events.len() > 0 ==> queue_stays_within(pool, cfg, place, events.drop_last(), longest)
    &&& watch(pool, cfg, place, events) matches Some(now) ==> now.pool.state.queue.len() <= longest
}

/// How many more tasks must overtake a task before it is aged.
pub open spec fn skips_until_aged(task: Task, threshold: u32) -> int {
    if task.skip_count < threshold {
        threshold - task.skip_count
    } else {
        0
    }
}

/// A part of a run brings in no other tasks than the whole.
proof fn lemma_fresh_so_far(events: Seq<Event>, threshold: u32)
    requires
        events.len() > 0,
        arrivals_are_fresh(events, threshold),
    ensures
        arrivals_are_fresh(events.drop_last(), threshold),
        events.last() matches Event::Arrive { task } ==> task.skip_count < threshold,
{
    let earlier = events.drop_last();
    assert forall|i: int| 0 <= i < earlier.len() implies (#[trigger] earlier[i] matches
        Event::Arrive { task } ==> task.skip_count < threshold) by {
        assert(earlier[i] == events[i]);
    }
    assert(events[events.len() - 1] == events.last());
}

/// No task starves. Take any queued task, aged or not, and let the queue never
/// be longer than `longest` while the task is in it. For as long as it is
/// queued, however the run goes on, the number of other tasks that are
/// dispatched stays below its place, the skips it lacks to be aged and
/// `longest` together, and the number of those that overtake it stays below
/// the latter two.
pub proof fn law_no_task_starves(
    pool: Pool,
    cfg: Config,
    threshold: u32,
    place: int,
    longest: nat,
    events: Seq<Event>,
)
    requires
        cfg.policy == (Policy::BudgetAware { aging_threshold: threshold }),
        0 <= place < pool.state.queue.len(),
        arrivals_are_fresh(events, threshold),
        counts_in_range(pool, cfg, place, events),
        queue_stays_within(pool, cfg, place, events, longest),
    ensures
        watch(pool, cfg, place, events) matches Some(now) ==> {
            let task = now.pool.state.queue[now.place];
            let before = pool.state.queue[place];
            let bound = place + skips_until_aged(before, threshold) + longest;
            &&& 0 <= now.place <= place
            &&& now.place < now.pool.state.queue.len()
            &&& now.dispatches < bound
            &&& task.skip_count - before.skip_count < skips_until_aged(before, threshold) + longest
            &&& task.skip_count >= threshold ==> now.dispatches < bound - now.place
            &&& task.skip_count >= threshold ==> none_aged_behind(
                now.pool.state.queue,
                threshold,
                bound - 1 - now.dispatches,
            )
        },
    decreases events.len(),
{
    law_skips_count_overtakers(pool, cfg, place, events);
    let before = pool.state.queue[place];
    let bound = place + skips_until_aged(before, threshold) + longest;
    if events.len() > 0 {
        let earlier = events.drop_last();
        lemma_fresh_so_far(events, threshold);
        law_no_task_starves(pool, cfg, threshold, place, longest, earlier);
        if let Some(then) = watch(pool, cfg, place, earlier) {
            law_skips_count_overtakers(pool, cfg, place, earlier);
            let state = then.pool.state;
            if events.last() is Ask && state.choice(cfg) is Some && state.choice(cfg)->0
                != then.place && state.queue[then.place].skip_count >= threshold {
                lemma_dispatch_draws_aged_nearer(
                    state,
                    cfg,
                    threshold,
                    then.place,
                    bound - 1 - then.dispatches,
                );
            }
        }
    }
}

/// Every aged task stands at place `last` or ahead of it, and its skips exceed
/// the threshold by no more than the places between `last` and the end of a
/// queue of length `longest`.
spec fn skips_are_bounded(queue: Seq<Task>, threshold: u32, longest: nat, last: int) -> bool {
    &&& last < longest
    &&& forall|i: int|
        0 <= i < queue.len() && (#[trigger] queue[i]).skip_count >= threshold ==> {
            &&& i <= last
            &&& queue[i].skip_count - threshold < longest - last
        }
}

proof fn lemma_dispatch_keeps_skips_bounded(
    state: QueueView,
    cfg: Config,
    threshold: u32,
    longest: nat,
    last: int,
) -> (next: int)
    requires
        cfg.policy == (Policy::BudgetAware { aging_threshold: threshold }),
        threshold + longest <= u32::MAX,
        0 < state.queue.len() <= longest,
        skips_are_bounded(state.queue, threshold, longest, last),
        state.choice(cfg) is Some,
    ensures
        skips_are_bounded(state.after_step(cfg).queue, threshold, longest, next),
{
    let chosen = state.choice(cfg)->0;
    let queue = state.after_step(cfg).queue;
    law_dispatch_needs_room(state, cfg);
    law_dispatch_keeps_the_order(state, chosen);
    let next = if any_aged(state.queue, threshold) {
        let aged = choose|i: int|
            0 <= i < state.queue.len() && (#[trigger] state.queue[i]).skip_count >= threshold;
        lemma_choice_is_aged(state, cfg, threshold, aged);
        last - 1
    } else {
        longest - 1
    };
    assert forall|i: int| 0 <= i < queue.len() && (#[trigger] queue[i]).skip_count
        >= threshold implies i <= next && queue[i].skip_count - threshold < longest - next by {
        if i < chosen {
            assert(queue[i] == overtaken(state.queue[i]));
            assert(state.queue[i].skip_count >= threshold ==> any_aged(state.queue, threshold));
        } else {
            assert(queue[i] == state.queue[i + 1]);
        }
    }
    next
}

proof fn lemma_skips_are_bounded(
    cfg: Config,
    threshold: u32,
    longest: nat,
    events: Seq<Event>,
) -> (last: int)
    requires
        cfg.policy == (Policy::BudgetAware { aging_threshold: threshold }),
        arrivals_are_fresh(events, threshold),
        arrivals(events).len() <= longest,
        threshold + longest <= u32::MAX,
    ensures
        skips_are_bounded(Pool::after_all(cfg, events).state.queue, threshold, longest, last),
    decreases events.len(),
{
    if events.len() == 0 {
        longest - 1
    } else {
        let earlier = events.drop_last();
        let state = Pool::after_all(cfg, earlier).state;
        lemma_fresh_so_far(events, threshold);
        law_only_a_close_closes(cfg, earlier);
        law_no_task_is_lost(cfg, earlier);
        let last = lemma_skips_are_bounded(cfg, threshold, longest, earlier);
        if events.last() is Ask && state.choice(cfg) is Some {
            law_dispatch_needs_room(state, cfg);
            lemma_dispatch_keeps_skips_bounded(state, cfg, threshold, longest, last)
        } else {
            last
        }
    }
}

/// No skip count of a run reaches its maximum, so every step is allowed, as
/// long as the tasks come in fresh and their number and the threshold together
/// do not exceed that maximum. Skips stay below the threshold and that number
/// together. Under arrival order every step is allowed whatever comes in.
pub proof fn law_every_step_is_allowed(cfg: Config, events: Seq<Event>)
    requires
        cfg.policy matches Policy::BudgetAware { aging_threshold } ==> {
            &&& arrivals_are_fresh(events, aging_threshold)
            &&& aging_threshold + arrivals(events).len() <= u32::MAX
        },
    ensures
        Pool::after_all(cfg, events).state.counters_have_room(cfg),
        cfg.policy matches Policy::BudgetAware { aging_threshold } ==> forall|i: int|
            0 <= i < Pool::after_all(cfg, events).state.queue.len() ==> (
            #[trigger] Pool::after_all(cfg, events).state.queue[i]).skip_count < aging_threshold
                + arrivals(events).len(),
{
    if let Policy::BudgetAware { aging_threshold } = cfg.policy {
        let state = Pool::after_all(cfg, events).state;
        law_only_a_close_closes(cfg, events);
        law_no_task_is_lost(cfg, events);
        let last = lemma_skips_are_bounded(
            cfg,
            aging_threshold,
            arrivals(events).len(),
            events,
        );
        law_dispatch_needs_room(state, cfg);
    }
}

/// An aged task that fits the whole budget is never out of reach: whenever the
/// pool has fallen idle, the next step runs an aged task.
pub proof fn law_idle_pool_runs_an_aged_task(
    state: QueueView,
    cfg: Config,
    threshold: u32,
    place: int,
    now: u64,
)
    requires
        cfg.policy == (Policy::BudgetAware { aging_threshold: threshold }),
        cfg.num_workers > 0,
        state.active_workers == 0,
        state.active_cpu_load == 0,
        0 <= place < state.queue.len(),
        state.queue[place].skip_count >= threshold,
        state.queue[place].cpu_cost <= CPU_BUDGET,
    ensures
        state.step(cfg, now) matches Step::Run { task, .. } && task.skip_count >= threshold,
{
    if state.choice(cfg) is None {
        law_budget_is_used(state, cfg, threshold);
        assert(state.queue[place].cpu_cost <= state.remaining());
    }
    lemma_choice_is_aged(state, cfg, threshold, place);
}

} // verus!
