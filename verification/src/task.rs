//! Tasks and the instants of their life.

use vstd::prelude::*;

verus! {

/// Nanoseconds in a millisecond.
pub const NANOS_PER_MILLI: u64 = 1_000_000;

/// What a task mostly waits for.
#[derive(Clone, Copy, Debug, PartialEq, Eq, Structural)]
pub enum Kind {
    Io,
    Cpu,
}

/// A unit of work. Instants are nanoseconds since the start of the run; the
/// CPU cost is a share of the budget, in the unit of
/// [`CPU_BUDGET`](crate::config::CPU_BUDGET).
#[derive(Clone, Copy, Debug, PartialEq, Eq)]
pub struct Task {
    pub id: u32,
    pub kind: Kind,
    pub cpu_cost: u32,
    pub duration_ms: u64,
    pub arrival_time: u64,
    pub enqueue_time: Option<u64>,
    pub start_time: Option<u64>,
    pub finish_time: Option<u64>,
    /// How many tasks behind this one were dispatched before it.
    pub skip_count: u32,
}

/// Whole milliseconds from one instant to another, or zero when the second is
/// the earlier one.
pub open spec fn millis_between(from: u64, to: u64) -> int {
    if from <= to {
        (to - from) / (NANOS_PER_MILLI as int)
    } else {
        0
    }
}

/// Whole milliseconds between two instants that may not be known yet.
pub open spec fn millis_if_known(from: Option<u64>, to: Option<u64>) -> int {
    match (from, to) {
        (Some(f), Some(t)) => millis_between(f, t),
        _ => 0,
    }
}

/// Whole milliseconds from one instant to another, or zero when the second is
/// the earlier one.
pub fn elapsed_ms(from: u64, to: u64) -> (ms: u64)
    ensures
        ms == millis_between(from, to),
{
    if from <= to {
        (to - from) / NANOS_PER_MILLI
    } else {
        0
    }
}

impl Task {
    /// A task that arrives now and has not been queued yet.
    pub fn new(id: u32, kind: Kind, cpu_cost: u32, duration_ms: u64, now: u64) -> (task: Task)
        ensures
            task == Task::arriving(id, kind, cpu_cost, duration_ms, now),
    {
        Task {
            id,
            kind,
            cpu_cost,
            duration_ms,
            arrival_time: now,
            enqueue_time: None,
            start_time: None,
            finish_time: None,
            skip_count: 0,
        }
    }

    /// The task with the given identity that arrives at `now`, never skipped
    /// and with nothing else recorded.
    pub open spec fn arriving(
        id: u32,
        kind: Kind,
        cpu_cost: u32,
        duration_ms: u64,
        now: u64,
    ) -> Task {
        Task {
            id,
            kind,
            cpu_cost,
            duration_ms,
            arrival_time: now,
            enqueue_time: None,
            start_time: None,
            finish_time: None,
            skip_count: 0,
        }
    }

    /// Records the instant at which the task was handed to the queue.
    pub fn mark_enqueued(&mut self, now: u64)
        ensures
            *final(self) == (Task { enqueue_time: Some(now), ..*old(self) }),
    {
        self.enqueue_time = Some(now);
    }

    /// Records the instant at which the task's work was done.
    pub fn mark_finished(&mut self, now: u64)
        ensures
            *final(self) == (Task { finish_time: Some(now), ..*old(self) }),
    {
        self.finish_time = Some(now);
    }

    /// Milliseconds after the start of the run at which the task arrived.
    pub fn arrived_at_ms(&self) -> (ms: u64)
        ensures
            ms == millis_between(0, self.arrival_time),
    {
        elapsed_ms(0, self.arrival_time)
    }

    /// The time spent in the queue: zero until the task has both been queued
    /// and started.
    pub open spec fn waited(self) -> int {
        millis_if_known(self.enqueue_time, self.start_time)
    }

    /// The time from queueing to completion: zero until both are known.
    pub open spec fn turned_around(self) -> int {
        millis_if_known(self.enqueue_time, self.finish_time)
    }

    /// Milliseconds spent in the queue, or zero while that is not known.
    pub fn wait_ms(&self) -> (ms: u64)
        ensures
            ms == self.waited(),
    {
        match (self.enqueue_time, self.start_time) {
            (Some(e), Some(s)) => elapsed_ms(e, s),
            _ => 0,
        }
    }

    /// Milliseconds from queueing to completion, or zero while that is not
    /// known.
    pub fn turnaround_ms(&self) -> (ms: u64)
        ensures
            ms == self.turned_around(),
    {
        match (self.enqueue_time, self.finish_time) {
            (Some(e), Some(f)) => elapsed_ms(e, f),
            _ => 0,
        }
    }
}

/// The time between two instants is a whole number of milliseconds, the
/// largest that fits between them; time never runs backwards.
pub proof fn law_elapsed_time_is_rounded_down(from: u64, to: u64)
    ensures
        from <= to ==> millis_between(from, to) * 1_000_000 <= to - from < (millis_between(from, to)
            + 1) * 1_000_000,
        from > to ==> millis_between(from, to) == 0,
{
}

/// The wait of a task is the largest whole number of milliseconds between the
/// instants of queueing and of starting, whatever else is recorded. It is zero
/// while either is unknown, and where the start is the earlier one.
pub proof fn law_wait_runs_from_queueing_to_start(task: Task)
    ensures
        match (task.enqueue_time, task.start_time) {
            (Some(queued), Some(started)) => if queued <= started {
                task.waited() * 1_000_000 <= started - queued < (task.waited() + 1) * 1_000_000
            } else {
                task.waited() == 0
            },
            _ => task.waited() == 0,
        },
{
}

/// The turnaround of a task is the largest whole number of milliseconds
/// between the instants of queueing and of completion, whatever else is
/// recorded. It is zero while either is unknown, and where the completion is
/// the earlier one.
pub proof fn law_turnaround_runs_from_queueing_to_finish(task: Task)
    ensures
        match (task.enqueue_time, task.finish_time) {
            (Some(queued), Some(finished)) => if queued <= finished {
                task.turned_around() * 1_000_000 <= finished - queued < (task.turned_around() + 1)
                    * 1_000_000
            } else {
                task.turned_around() == 0
            },
            _ => task.turned_around() == 0,
        },
{
}

/// A task that starts later by some whole milliseconds has waited longer by
/// exactly as many.
pub proof fn law_waits_grow_with_the_start(task: Task, queued: u64, started: u64, ms: nat)
    requires
        task.enqueue_time == Some(queued),
        task.start_time == Some(started),
        queued <= started,
        started + ms * 1_000_000 <= u64::MAX,
    ensures
        (Task { start_time: Some((started + ms * 1_000_000) as u64), ..task }).waited()
            == task.waited() + ms,
{
    let later = Task { start_time: Some((started + ms * 1_000_000) as u64), ..task };
    law_wait_runs_from_queueing_to_start(task);
    law_wait_runs_from_queueing_to_start(later);
}

/// A new task is what it was asked to be, arrives at the given instant, and
/// has neither been queued, nor started, nor finished, nor skipped.
pub proof fn law_new_tasks_are_untouched(
    id: u32,
    kind: Kind,
    cpu_cost: u32,
    duration_ms: u64,
    now: u64,
)
    ensures
        ({
            let task = Task::arriving(id, kind, cpu_cost, duration_ms, now);
            &&& task.id == id
            &&& task.kind == kind
            &&& task.cpu_cost == cpu_cost
            &&& task.duration_ms == duration_ms
            &&& task.arrival_time == now
            &&& task.enqueue_time is None
            &&& task.start_time is None
            &&& task.finish_time is None
            &&& task.skip_count == 0
            &&& task.waited() == 0
            &&& task.turned_around() == 0
        }),
{
}

/// A task that was queued, then started, then finished has a turnaround of at
/// least its wait and the whole milliseconds it ran for.
pub proof fn law_turnaround_covers_wait(task: Task, queued: u64, started: u64, finished: u64)
    requires
        task.enqueue_time == Some(queued),
        task.start_time == Some(started),
        task.finish_time == Some(finished),
        queued <= started <= finished,
    ensures
        task.turned_around() >= task.waited() + millis_between(started, finished),
{
}

} // verus!
