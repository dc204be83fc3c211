//! How a run ends: one by one the workers find nothing left to do, and once
//! all of them have ended, all work is done.

use crate::config::Config;
use crate::intake::{
    has_close, is_fed, law_all_sent_tasks_are_done_at_the_end,
    law_closed_means_all_sent_tasks_arrived, law_only_a_close_closes,
};
use crate::queue::Step;
use crate::task::Task;
use crate::trace::{
    identities, law_budget_is_never_exceeded, law_done_tasks_have_started_and_finished,
    law_no_task_is_lost, ran_for_its_duration, tasks_run_for_their_duration, total_cost, Event,
    Pool,
};
use vstd::prelude::*;

verus! {

/// How many times in the run a worker was told to end.
pub open spec fn exits(cfg: Config, events: Seq<Event>) -> nat
    decreases events.len(),
{
    if events.len() == 0 {
        0
    } else {
        let before = Pool::after_all(cfg, events.drop_last());
        exits(cfg, events.drop_last()) + match events.last() {
            Event::Ask { now } => if before.state.step(cfg, now) is Exit {
                1nat
            } else {
                0nat
            },
            _ => 0nat,
        }
    }
}

/// Only a worker that neither runs a task nor has ended looks at the queue.
pub open spec fn only_free_workers_ask(cfg: Config, events: Seq<Event>) -> bool
    decreases events.len(),
{
    events.len() > 0 ==> {
        let before = events.drop_last();
        &&& only_free_workers_ask(cfg, before)
        &&& events.last() is Ask ==> Pool::after_all(cfg, before).running.len() + exits(cfg, before)
            < cfg.num_workers
    }
}

proof fn lemma_workers_are_accounted_for(cfg: Config, events: Seq<Event>)
    requires
        only_free_workers_ask(cfg, events),
    ensures
        Pool::after_all(cfg, events).running.len() + exits(cfg, events) <= cfg.num_workers,
    decreases events.len(),
{
    if events.len() > 0 {
        lemma_workers_are_accounted_for(cfg, events.drop_last());
    }
}

/// In a run that is fed from a channel the end is lasting: from the first
/// worker that ends on, every worker that looks at the queue ends.
pub proof fn law_the_end_lasts(cfg: Config, events: Seq<Event>, sent: Seq<Task>, now: u64)
    requires
        is_fed(events, sent),
        exits(cfg, events) > 0,
    ensures
        Pool::after_all(cfg, events).state.is_over(cfg),
        Pool::after_all(cfg, events).state.step(cfg, now) == Step::Exit,
    decreases events.len(),
{
    let before = events.drop_last();
    law_only_a_close_closes(cfg, before);
    law_budget_is_never_exceeded(cfg, before);
    if exits(cfg, before) > 0 {
        law_the_end_lasts(cfg, before, sent, now);
        assert(has_close(before));
    }
}

/// Once all workers of a pool that is fed from a channel have ended, the tasks
/// that are done are those that were sent, none lost and none doubled, each
/// with all that it was sent with. Each has started and finished, and where no
/// task finishes before its duration is over, ran for at least its duration.
/// The queue is empty, no worker is busy and no budget is held.
pub proof fn law_all_work_is_done_when_all_workers_have_ended(
    cfg: Config,
    events: Seq<Event>,
    sent: Seq<Task>,
)
    requires
        is_fed(events, sent),
        only_free_workers_ask(cfg, events),
        cfg.num_workers > 0,
        exits(cfg, events) == cfg.num_workers,
    ensures
        ({
            let pool = Pool::after_all(cfg, events);
            &&& identities(pool.done) == identities(sent)
            &&& pool.done.len() == sent.len()
            &&& forall|i: int|
                0 <= i < pool.done.len() ==> (#[trigger] pool.done[i]).start_time is Some
                    && pool.done[i].finish_time is Some
            &&& tasks_run_for_their_duration(cfg, events) ==> forall|i: int|
                0 <= i < pool.done.len() ==> ran_for_its_duration(#[trigger] pool.done[i])
            &&& pool.state.generation_done
            &&& pool.state.queue.len() == 0
            &&& pool.state.active_workers == 0
            &&& pool.state.active_cpu_load == 0
        }),
{
    let pool = Pool::after_all(cfg, events);
    lemma_workers_are_accounted_for(cfg, events);
    law_the_end_lasts(cfg, events, sent, 0);
    law_budget_is_never_exceeded(cfg, events);
    law_no_task_is_lost(cfg, events);
    law_closed_means_all_sent_tasks_arrived(cfg, events, sent);
    law_all_sent_tasks_are_done_at_the_end(cfg, events, sent);
    law_done_tasks_have_started_and_finished(cfg, events);
    assert(pool.running =~= Seq::<Task>::empty());
    assert(total_cost(pool.running) == 0);
    lemma_nothing_has_no_identities(pool.running);
    assert(identities(pool.running).add(identities(pool.done)) =~= identities(pool.done));
}

proof fn lemma_nothing_has_no_identities(tasks: Seq<Task>)
    requires
        tasks.len() == 0,
    ensures
        identities(tasks) == vstd::multiset::Multiset::<Task>::empty(),
{
    broadcast use vstd::seq_lib::group_to_multiset_ensures;

    assert(identities(tasks).len() == 0);
    assert(identities(tasks) =~= vstd::multiset::Multiset::<Task>::empty());
}

} // verus!
