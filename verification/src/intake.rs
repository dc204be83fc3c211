//! How tasks come in: one thread takes them from a channel in order, and once
//! the channel has ended it closes the queue.

use crate::config::Config;
use crate::task::Task;
use crate::trace::{
    identities, identity, law_no_task_is_lost, law_workers_end_when_the_work_is_done, Event, Pool,
};
use vstd::prelude::*;

verus! {

/// The tasks that come in during a run, in order.
pub open spec fn arrivals(events: Seq<Event>) -> Seq<Task>
    decreases events.len(),
{
    if events.len() == 0 {
        Seq::empty()
    } else {
        match events.last() {
            Event::Arrive { task } => arrivals(events.drop_last()).push(task),
            _ => arrivals(events.drop_last()),
        }
    }
}

/// The queue is closed at some point of the run.
pub open spec fn has_close(events: Seq<Event>) -> bool {
    exists|i: int| 0 <= i < events.len() && #[trigger] events[i] is Close
}

/// No task comes in after the queue was closed.
pub open spec fn no_arrival_after_close(events: Seq<Event>) -> bool {
    forall|i: int, j: int|
        0 <= i < j < events.len() && #[trigger] events[i] is Close
            ==> !(#[trigger] events[j] is Arrive)
}

/// The run takes in what a channel delivers that carries the tasks `sent` and
/// then ends: the next task, as long as there is one, and after the last of
/// them, once, the word that no more come. Workers may act at any time.
pub open spec fn is_fed(events: Seq<Event>, sent: Seq<Task>) -> bool
    decreases events.len(),
{
    if events.len() == 0 {
        true
    } else {
        let before = events.drop_last();
        let taken = arrivals(before).len();
        &&& is_fed(before, sent)
        &&& match events.last() {
            Event::Arrive { task } => !has_close(before) && taken < sent.len() && task
                == sent[taken as int],
            Event::Close => !has_close(before) && taken == sent.len(),
            _ => true,
        }
    }
}

proof fn lemma_has_close_last(events: Seq<Event>)
    requires
        events.len() > 0,
    ensures
        has_close(events) == (has_close(events.drop_last()) || events.last() is Close),
{
    let before = events.drop_last();
    if has_close(before) {
        let i = choose|i: int| 0 <= i < before.len() && #[trigger] before[i] is Close;
        assert(events[i] is Close);
    }
    if has_close(events) && !(events.last() is Close) {
        let i = choose|i: int| 0 <= i < events.len() && #[trigger] events[i] is Close;
        assert(before[i] is Close);
    }
}

/// The history holds the tasks that came in, and the queue is closed exactly
/// when the run has closed it: nothing else sets the mark.
pub proof fn law_only_a_close_closes(cfg: Config, events: Seq<Event>)
    ensures
        Pool::after_all(cfg, events).arrived == arrivals(events),
        Pool::after_all(cfg, events).state.generation_done == has_close(events),
    decreases events.len(),
{
    if events.len() > 0 {
        law_only_a_close_closes(cfg, events.drop_last());
        lemma_has_close_last(events);
    }
}

/// Closing is final: a queue starts open, and once it is closed no event opens
/// it again.
pub proof fn law_closing_is_final(cfg: Config, events: Seq<Event>, event: Event)
    ensures
        !Pool::initial().state.generation_done,
        Pool::after_all(cfg, events).state.generation_done ==> Pool::after_all(cfg, events).after(
            cfg,
            event,
        ).state.generation_done,
{
}

proof fn lemma_no_arrival_from(events: Seq<Event>, n: int)
    requires
        0 <= n <= events.len(),
        forall|j: int| n <= j < events.len() ==> !(#[trigger] events[j] is Arrive),
    ensures
        arrivals(events) == arrivals(events.take(n)),
    decreases events.len() - n,
{
    if n == events.len() {
        assert(events.take(n) =~= events);
    } else {
        let before = events.drop_last();
        lemma_no_arrival_from(before, n);
        assert(before.take(n) =~= events.take(n));
    }
}

/// In a run without arrivals after the close, every state with a closed queue
/// already holds every task that ever comes in: from there on nothing is
/// appended and the queue stays closed.
pub proof fn law_a_closed_queue_holds_every_arrival(cfg: Config, events: Seq<Event>, n: int)
    requires
        no_arrival_after_close(events),
        0 <= n <= events.len(),
        Pool::after_all(cfg, events.take(n)).state.generation_done,
    ensures
        Pool::after_all(cfg, events.take(n)).arrived == arrivals(events),
        Pool::after_all(cfg, events).arrived == arrivals(events),
        Pool::after_all(cfg, events).state.generation_done,
        forall|j: int| n <= j < events.len() ==> !(#[trigger] events[j] is Arrive),
{
    let start = events.take(n);
    law_only_a_close_closes(cfg, start);
    law_only_a_close_closes(cfg, events);
    let i = choose|i: int| 0 <= i < start.len() && #[trigger] start[i] is Close;
    assert(events[i] is Close);
    lemma_no_arrival_from(events, n);
}

/// What a channel delivers ends with the close.
proof fn lemma_a_fed_run_closes_last(events: Seq<Event>, sent: Seq<Task>)
    requires
        is_fed(events, sent),
    ensures
        no_arrival_after_close(events),
        arrivals(events).is_prefix_of(sent),
        has_close(events) ==> arrivals(events) == sent,
    decreases events.len(),
{
    if events.len() > 0 {
        let before = events.drop_last();
        lemma_a_fed_run_closes_last(before, sent);
        lemma_has_close_last(events);
        assert forall|i: int, j: int|
            0 <= i < j < events.len() && #[trigger] events[i] is Close implies !(
        #[trigger] events[j] is Arrive) by {
            assert(before[i] is Close);
            if j < before.len() {
                assert(!(before[j] is Arrive));
            }
        }
        assert(arrivals(events) =~= sent.take(arrivals(events).len() as int));
    }
}

/// A run that is fed from a channel takes the tasks in the order in which they
/// were sent, and in every state with a closed queue all of them have been
/// appended.
pub proof fn law_closed_means_all_sent_tasks_arrived(
    cfg: Config,
    events: Seq<Event>,
    sent: Seq<Task>,
)
    requires
        is_fed(events, sent),
    ensures
        Pool::after_all(cfg, events).arrived.is_prefix_of(sent),
        Pool::after_all(cfg, events).state.generation_done ==> Pool::after_all(cfg, events).arrived
            == sent,
        no_arrival_after_close(events),
{
    law_only_a_close_closes(cfg, events);
    lemma_a_fed_run_closes_last(events, sent);
}

/// Once a queue that is fed from a channel is closed, whatever happens next is
/// neither an arrival nor another close: the queue stays closed and nothing is
/// appended any more.
pub proof fn law_nothing_is_appended_after_the_close(
    cfg: Config,
    events: Seq<Event>,
    event: Event,
    sent: Seq<Task>,
)
    requires
        is_fed(events.push(event), sent),
        Pool::after_all(cfg, events).state.generation_done,
    ensures
        !(event is Arrive) && !(event is Close),
        Pool::after_all(cfg, events).after(cfg, event).state.generation_done,
        Pool::after_all(cfg, events).after(cfg, event).arrived == sent,
        Pool::after_all(cfg, events).arrived == sent,
{
    let longer = events.push(event);
    assert(longer.drop_last() =~= events);
    law_only_a_close_closes(cfg, events);
    law_closed_means_all_sent_tasks_arrived(cfg, events, sent);
}

/// When a budget-aware worker of a pool that is fed from a channel ends, every
/// task that was sent is done. When a worker under arrival order ends, every
/// task that was sent is done or still running.
pub proof fn law_all_sent_tasks_are_done_at_the_end(
    cfg: Config,
    events: Seq<Event>,
    sent: Seq<Task>,
)
    requires
        is_fed(events, sent),
        Pool::after_all(cfg, events).state.is_over(cfg),
    ensures
        ({
            let pool = Pool::after_all(cfg, events);
            &&& identities(pool.running).add(identities(pool.done)) == identities(sent)
            &&& cfg.policy is BudgetAware ==> identities(pool.done) == identities(sent)
        }),
{
    broadcast use vstd::seq_lib::group_to_multiset_ensures;

    law_closed_means_all_sent_tasks_arrived(cfg, events, sent);
    law_workers_end_when_the_work_is_done(cfg, events);
    law_no_task_is_lost(cfg, events);
    let pool = Pool::after_all(cfg, events);
    assert(pool.state.queue.map_values(|t: Task| identity(t)) =~= Seq::<Task>::empty());
    assert(identities(pool.running).add(identities(pool.done)) =~= identities(sent));
}

} // verus!
