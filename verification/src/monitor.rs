//! The monitor: it looks at the pool at a fixed interval and keeps what it
//! sees.

use crate::config::{Config, CPU_BUDGET};
use crate::queue::{QueueState, Snapshot};
use crate::task::{millis_between, NANOS_PER_MILLI};
use crate::trace::{law_budget_is_never_exceeded, Event, Pool};
use vstd::prelude::*;

verus! {

/// Looks at the pool once per interval.
#[derive(Clone, Copy, Debug, PartialEq, Eq)]
pub struct Monitor {
    pub interval_ms: u64,
}

impl Monitor {
    /// A monitor that looks at the pool every `interval_ms` milliseconds.
    pub fn new(interval_ms: u64) -> (monitor: Monitor)
        ensures
            monitor.interval_ms == interval_ms,
    {
        Monitor { interval_ms }
    }

    /// Keeps a snapshot behind those that were taken before.
    pub fn record(&self, snapshot: Snapshot, snapshots: &mut Vec<Snapshot>)
        ensures
            final(snapshots)@ == old(snapshots)@.push(snapshot),
    {
        snapshots.push(snapshot);
    }
}

/// The instants at which the monitor looks at the pool in a run, in order.
pub open spec fn looks(events: Seq<Event>) -> Seq<u64>
    decreases events.len(),
{
    if events.len() == 0 {
        Seq::empty()
    } else {
        match events.last() {
            Event::Look { now } => looks(events.drop_last()).push(now),
            _ => looks(events.drop_last()),
        }
    }
}

/// The times of several snapshots.
pub open spec fn times(snapshots: Seq<Snapshot>) -> Seq<u64> {
    snapshots.map_values(|s: Snapshot| s.time_ms)
}

/// The value at place `i` is at least `gap` above the one before it, and the
/// first at least `gap` above zero.
pub open spec fn is_later_by(vals: Seq<u64>, i: int, gap: int) -> bool {
    vals[i] >= (if i == 0 {
        0
    } else {
        vals[i - 1] as int
    }) + gap
}

/// Each value is at least `gap` above the one before it, and the first at
/// least `gap` above zero.
pub open spec fn are_apart(vals: Seq<u64>, gap: int) -> bool {
    forall|i: int| 0 <= i < vals.len() ==> #[trigger] is_later_by(vals, i, gap)
}

/// The whole milliseconds up to two instants are at least as far apart as the
/// instants are: `n` milliseconds stay `n` milliseconds.
pub proof fn law_times_keep_their_distance(a: u64, b: u64, n: nat)
    requires
        b >= a + n * NANOS_PER_MILLI,
    ensures
        millis_between(0, b) >= millis_between(0, a) + n,
{
}

/// The monitor only looks: what it does leaves the shared state and the tasks
/// as they were and adds one snapshot behind the earlier ones. Nothing else
/// touches the snapshots.
pub proof fn law_the_monitor_only_looks(pool: Pool, cfg: Config, event: Event)
    ensures
        event matches Event::Look { now } ==> pool.after(cfg, event) == (Pool {
            snapshots: pool.snapshots.push(pool.state.snapshot(now)),
            ..pool
        }),
        !(event is Look) ==> pool.after(cfg, event).snapshots == pool.snapshots,
{
}

/// The snapshots only grow at their end: those taken up to any point of a run
/// stand unchanged at the front of all that follow.
pub proof fn law_snapshots_only_grow(cfg: Config, events: Seq<Event>, n: int)
    requires
        0 <= n <= events.len(),
    ensures
        Pool::after_all(cfg, events.take(n)).snapshots.is_prefix_of(
            Pool::after_all(cfg, events).snapshots,
        ),
    decreases events.len() - n,
{
    if n == events.len() {
        assert(events.take(n) =~= events);
    } else {
        let before = events.drop_last();
        law_snapshots_only_grow(cfg, before, n);
        assert(before.take(n) =~= events.take(n));
    }
}

/// Along every run there is one snapshot for each look, with the time of that
/// look, and none shows a load above the budget or more busy workers than the
/// pool has.
pub proof fn law_snapshots_tell_the_looks(cfg: Config, events: Seq<Event>)
    ensures
        ({
            let snapshots = Pool::after_all(cfg, events).snapshots;
            &&& snapshots.len() == looks(events).len()
            &&& forall|i: int|
                0 <= i < snapshots.len() ==> {
                    &&& (#[trigger] snapshots[i]).time_ms == millis_between(0, looks(events)[i])
                    &&& snapshots[i].cpu_load <= CPU_BUDGET
                    &&& snapshots[i].active_workers <= cfg.num_workers
                }
        }),
    decreases events.len(),
{
    if events.len() > 0 {
        law_snapshots_tell_the_looks(cfg, events.drop_last());
        law_budget_is_never_exceeded(cfg, events.drop_last());
    }
}

/// Values that are apart are in order, and the gaps add up to no more than the
/// last of them.
proof fn lemma_gaps_add_up(vals: Seq<u64>, gap: nat)
    requires
        are_apart(vals, gap as int),
    ensures
        forall|i: int, j: int| 0 <= i <= j < vals.len() ==> #[trigger] vals[i] <= #[trigger] vals[j],
        vals.len() > 0 ==> vals.len() * gap <= vals.last(),
    decreases vals.len(),
{
    if vals.len() > 0 {
        let before = vals.drop_last();
        let last = vals.len() - 1;
        assert forall|i: int| 0 <= i < before.len() implies #[trigger] is_later_by(
            before,
            i,
            gap as int,
        ) by {
            assert(is_later_by(vals, i, gap as int));
        }
        lemma_gaps_add_up(before, gap);
        assert(is_later_by(vals, last, gap as int));
        assert forall|i: int, j: int| 0 <= i <= j < vals.len() implies #[trigger] vals[i]
            <= #[trigger] vals[j] by {
            if j < last {
                assert(before[i] <= before[j]);
            } else if i < last {
                assert(before[i] <= before[last - 1]);
            }
        }
        assert(before.len() == 0 ==> before.len() * gap == 0) by (nonlinear_arith);
        assert(vals.len() * gap == before.len() * gap + gap) by (nonlinear_arith)
            requires
                vals.len() == before.len() + 1,
        ;
    }
}

/// A monitor that sleeps for its interval before each look takes snapshots
/// whose times are at least the interval apart, the first of them at least the
/// interval after the start: the times are in order, and together the
/// intervals fit into the time of the last.
pub proof fn law_snapshots_are_an_interval_apart(
    cfg: Config,
    events: Seq<Event>,
    monitor: Monitor,
)
    requires
        are_apart(looks(events), monitor.interval_ms * NANOS_PER_MILLI),
    ensures
        ({
            let snapshots = Pool::after_all(cfg, events).snapshots;
            &&& are_apart(times(snapshots), monitor.interval_ms as int)
            &&& forall|i: int, j: int|
                0 <= i <= j < snapshots.len() ==> (#[trigger] snapshots[i]).time_ms <= (
                #[trigger] snapshots[j]).time_ms
            &&& snapshots.len() > 0 ==> snapshots.len() * monitor.interval_ms
                <= snapshots.last().time_ms
        }),
{
    let snapshots = Pool::after_all(cfg, events).snapshots;
    let interval = monitor.interval_ms as nat;
    let readings = looks(events);
    let vals = times(snapshots);
    law_snapshots_tell_the_looks(cfg, events);
    assert forall|i: int| 0 <= i < vals.len() implies #[trigger] is_later_by(
        vals,
        i,
        interval as int,
    ) by {
        let earlier = if i == 0 {
            0u64
        } else {
            readings[i - 1]
        };
        assert(is_later_by(readings, i, interval * NANOS_PER_MILLI));
        law_times_keep_their_distance(earlier, readings[i], interval);
        assert(vals[i] == snapshots[i].time_ms);
        if i > 0 {
            assert(vals[i - 1] == snapshots[i - 1].time_ms);
        }
    }
    lemma_gaps_add_up(vals, interval);
    assert forall|i: int, j: int| 0 <= i <= j < snapshots.len() implies (
    #[trigger] snapshots[i]).time_ms <= (#[trigger] snapshots[j]).time_ms by {
        assert(vals[i] <= vals[j]);
    }
}

} // verus!
