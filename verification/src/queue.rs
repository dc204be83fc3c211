//! The shared queue and the decisions that workers take on it.
//!
//! Every operation takes the queue from one state to the next and tells the
//! caller which sleeping workers to wake. The caller holds the lock, reads the
//! clock and does the sleeping.

use crate::config::{Config, Policy, CPU_BUDGET};
use crate::task::{elapsed_ms, millis_between, Kind, Task};
use std::collections::VecDeque;
use vstd::prelude::*;

verus! {

/// How long a worker sleeps under [`Policy::Fifo`] before it looks again.
pub const FIFO_POLL_MS: u64 = 5;

/// Which of the sleeping workers to wake.
#[derive(Clone, Copy, Debug, PartialEq, Eq, Structural)]
pub enum Wake {
    Nobody,
    One,
    All,
}

/// What a worker does next.
#[derive(Clone, Copy, Debug, PartialEq, Eq)]
pub enum Step {
    /// No work is left: the worker ends.
    Exit,
    /// Sleep until woken, or until the timeout where there is one, then ask
    /// again.
    Wait { timeout_ms: Option<u64> },
    /// Run the task, which has left the queue, and wake others first.
    Run { task: Task, wake: Wake },
}

/// What the pool looked like at one instant.
#[derive(Clone, Copy, Debug, PartialEq, Eq)]
pub struct Snapshot {
    pub time_ms: u64,
    pub cpu_load: u32,
    pub active_workers: usize,
}

/// The state that the workers share.
pub struct QueueState {
    pub queue: VecDeque<Task>,
    pub active_workers: usize,
    pub active_cpu_load: u32,
    pub generation_done: bool,
}

/// The mathematical value of a [`QueueState`].
#[verifier::ext_equal]
pub struct QueueView {
    pub queue: Seq<Task>,
    pub active_workers: nat,
    pub active_cpu_load: nat,
    pub generation_done: bool,
}

impl View for QueueState {
    type V = QueueView;

    open spec fn view(&self) -> QueueView {
        QueueView {
            queue: self.queue@,
            active_workers: self.active_workers as nat,
            active_cpu_load: self.active_cpu_load as nat,
            generation_done: self.generation_done,
        }
    }
}

/// `i` is the first place in the queue whose task is accepted.
pub open spec fn is_first(queue: Seq<Task>, accept: spec_fn(Task) -> bool, i: int) -> bool {
    &&& 0 <= i < queue.len()
    &&& accept(queue[i])
    &&& forall|j: int| 0 <= j < i ==> !accept(#[trigger] queue[j])
}

/// The first place in the queue whose task is accepted, if there is one.
pub open spec fn first_where(queue: Seq<Task>, accept: spec_fn(Task) -> bool) -> Option<int> {
    if exists|i: int| is_first(queue, accept, i) {
        Some(choose|i: int| is_first(queue, accept, i))
    } else {
        None
    }
}

/// Accepts the tasks that cost no more than what remains of the budget.
pub open spec fn within(remaining: int) -> spec_fn(Task) -> bool {
    |t: Task| t.cpu_cost <= remaining
}

/// Accepts the tasks of one kind that cost no more than what remains of the
/// budget.
pub open spec fn kind_within(kind: Kind, remaining: int) -> spec_fn(Task) -> bool {
    |t: Task| t.kind == kind && t.cpu_cost <= remaining
}

/// Accepts the aged tasks that cost no more than what remains of the budget.
pub open spec fn aged_within(threshold: u32, remaining: int) -> spec_fn(Task) -> bool {
    |t: Task| t.skip_count >= threshold && t.cpu_cost <= remaining
}

/// Some task in the queue was skipped at least `threshold` times.
pub open spec fn any_aged(queue: Seq<Task>, threshold: u32) -> bool {
    exists|i: int| 0 <= i < queue.len() && (#[trigger] queue[i]).skip_count >= threshold
}

/// The budget-aware choice among the tasks of a queue with `remaining` budget:
///
/// - while any task is aged, the first aged task that fits and no other;
/// - otherwise, when the budget has room for a CPU task, the first CPU task
///   that fits;
/// - otherwise the first IO task that fits;
/// - otherwise the first task that fits.
pub open spec fn budget_choice(
    queue: Seq<Task>,
    cpu_cpu_cost: u32,
    threshold: u32,
    remaining: int,
) -> Option<int> {
    let fitting_cpu = first_where(queue, kind_within(Kind::Cpu, remaining));
    let fitting_io = first_where(queue, kind_within(Kind::Io, remaining));
    if any_aged(queue, threshold) {
        first_where(queue, aged_within(threshold, remaining))
    } else if remaining >= cpu_cpu_cost && fitting_cpu is Some {
        fitting_cpu
    } else if fitting_io is Some {
        fitting_io
    } else {
        first_where(queue, within(remaining))
    }
}

/// A task that one more task behind it has overtaken.
pub open spec fn overtaken(task: Task) -> Task {
    Task { skip_count: (task.skip_count + 1) as u32, ..task }
}

impl QueueView {
    /// An empty queue, an idle pool, and tasks still to come.
    pub open spec fn initial() -> QueueView {
        QueueView {
            queue: Seq::empty(),
            active_workers: 0,
            active_cpu_load: 0,
            generation_done: false,
        }
    }

    /// The part of the budget that no running task holds.
    pub open spec fn remaining(self) -> int {
        CPU_BUDGET - self.active_cpu_load
    }

    /// The worker that looks at this state has nothing left to do.
    pub open spec fn is_over(self, cfg: Config) -> bool {
        &&& self.generation_done
        &&& self.queue.len() == 0
        &&& cfg.policy is BudgetAware ==> self.active_workers == 0
    }

    /// The place in the queue of the task to dispatch now, if any.
    pub open spec fn choice(self, cfg: Config) -> Option<int> {
        if self.queue.len() == 0 || self.active_workers >= cfg.num_workers {
            None
        } else {
            match cfg.policy {
                Policy::Fifo => if self.queue[0].cpu_cost <= self.remaining() {
                    Some(0)
                } else {
                    None
                },
                Policy::BudgetAware { aging_threshold } => budget_choice(
                    self.queue,
                    cfg.cpu_cpu_cost,
                    aging_threshold,
                    self.remaining(),
                ),
            }
        }
    }

    /// The state after the task at `chosen` has left the queue for a worker:
    /// those ahead of it have been overtaken once more.
    pub open spec fn dispatch(self, chosen: int) -> QueueView {
        QueueView {
            queue: self.queue.take(chosen).map_values(|t: Task| overtaken(t)) + self.queue.skip(
                chosen + 1,
            ),
            active_workers: self.active_workers + 1,
            active_cpu_load: self.active_cpu_load + self.queue[chosen].cpu_cost as nat,
            generation_done: self.generation_done,
        }
    }

    /// The step of a worker that looks at this state at `now`.
    pub open spec fn step(self, cfg: Config, now: u64) -> Step {
        if self.is_over(cfg) {
            Step::Exit
        } else {
            match self.choice(cfg) {
                None => Step::Wait {
                    timeout_ms: if cfg.policy is Fifo {
                        Some(FIFO_POLL_MS)
                    } else {
                        None
                    },
                },
                Some(chosen) => Step::Run {
                    task: Task { start_time: Some(now), ..self.queue[chosen] },
                    wake: if cfg.policy is BudgetAware && self.queue.len() > 1 {
                        Wake::One
                    } else {
                        Wake::Nobody
                    },
                },
            }
        }
    }

    /// The state that the step leaves.
    pub open spec fn after_step(self, cfg: Config) -> QueueView {
        match self.choice(cfg) {
            None => self,
            Some(chosen) => self.dispatch(chosen),
        }
    }

    /// No skip count would pass its maximum in the next step.
    pub open spec fn counters_have_room(self, cfg: Config) -> bool {
        match self.choice(cfg) {
            None => true,
            Some(chosen) => forall|i: int|
                0 <= i < chosen ==> (#[trigger] self.queue[i]).skip_count < u32::MAX,
        }
    }

    /// The state with one more task at the back of the queue.
    pub open spec fn enqueue(self, task: Task) -> QueueView {
        QueueView { queue: self.queue.push(task), ..self }
    }

    /// The state once it is known that no more tasks come.
    pub open spec fn close(self) -> QueueView {
        QueueView { generation_done: true, ..self }
    }

    /// The state once a running task of this cost is done.
    pub open spec fn release(self, cpu_cost: u32) -> QueueView {
        QueueView {
            active_workers: (self.active_workers - 1) as nat,
            active_cpu_load: (self.active_cpu_load - cpu_cost) as nat,
            ..self
        }
    }

    /// What the pool looks like at `now`.
    pub open spec fn snapshot(self, now: u64) -> Snapshot {
        Snapshot {
            time_ms: millis_between(0, now) as u64,
            cpu_load: self.active_cpu_load as u32,
            active_workers: self.active_workers as usize,
        }
    }

    /// The workers to wake when a running task is done.
    pub open spec fn wake_after_release(self, policy: Policy) -> Wake {
        if policy is Fifo || (self.generation_done && self.queue.len() == 0) {
            Wake::All
        } else {
            Wake::One
        }
    }
}

/// A place in the queue as a mathematical integer.
pub open spec fn place(index: Option<usize>) -> Option<int> {
    match index {
        Some(i) => Some(i as int),
        None => None,
    }
}

proof fn lemma_first_is_unique(queue: Seq<Task>, accept: spec_fn(Task) -> bool, i: int)
    requires
        is_first(queue, accept, i),
    ensures
        first_where(queue, accept) == Some(i),
{
    let j = choose|j: int| is_first(queue, accept, j);
    assert(is_first(queue, accept, j));
    assert(accept(queue[i]) && accept(queue[j]));
    assert(i == j);
}

/// The first place in the queue whose task is accepted.
fn position<F: Fn(&Task) -> bool>(
    queue: &VecDeque<Task>,
    accept: F,
    Ghost(accepted): Ghost<spec_fn(Task) -> bool>,
) -> (found: Option<usize>)
    requires
        forall|t: Task| call_requires(accept, (&t,)),
        forall|t: Task, b: bool| call_ensures(accept, (&t,), b) ==> b == accepted(t),
    ensures
        place(found) == first_where(queue@, accepted),
        found is None ==> forall|j: int| 0 <= j < queue@.len() ==> !accepted(#[trigger] queue@[j]),
{
    let mut i: usize = 0;
    while i < queue.len()
        invariant
            i <= queue@.len(),
            forall|t: Task| call_requires(accept, (&t,)),
            forall|t: Task, b: bool| call_ensures(accept, (&t,), b) ==> b == accepted(t),
            forall|j: int| 0 <= j < i ==> !accepted(#[trigger] queue@[j]),
        decreases queue@.len() - i,
    {
        if accept(&queue[i]) {
            proof {
                lemma_first_is_unique(queue@, accepted, i as int);
            }
            return Some(i);
        }
        i += 1;
    }
    None
}

impl QueueState {
    /// An empty queue, an idle pool, and tasks still to come.
    pub fn new() -> (state: QueueState)
        ensures
            state@ == QueueView::initial(),
    {
        QueueState {
            queue: VecDeque::new(),
            active_workers: 0,
            active_cpu_load: 0,
            generation_done: false,
        }
    }

    /// Puts a task at the back of the queue.
    pub fn enqueue(&mut self, task: Task) -> (wake: Wake)
        ensures
            final(self)@ == old(self)@.enqueue(task),
            wake == Wake::All,
    {
        self.queue.push_back(task);
        Wake::All
    }

    /// Records that no more tasks come.
    pub fn close(&mut self) -> (wake: Wake)
        ensures
            final(self)@ == old(self)@.close(),
            wake == Wake::All,
    {
        self.generation_done = true;
        Wake::All
    }

    /// The budget-aware choice among the queued tasks.
    fn budget_select(&self, cpu_cpu_cost: u32, threshold: u32) -> (chosen: Option<usize>)
        ensures
            place(chosen) == budget_choice(
                self@.queue,
                cpu_cpu_cost,
                threshold,
                self@.remaining(),
            ),
    {
        let remaining: i64 = CPU_BUDGET as i64 - self.active_cpu_load as i64;

        // An aged task that does not fit yet holds every other task back.
        let aged = position(
            &self.queue,
            |t: &Task| -> (b: bool) ensures b == (t.skip_count >= threshold) {
                t.skip_count >= threshold
            },
            Ghost(|t: Task| t.skip_count >= threshold),
        );
        if aged.is_some() {
            return position(
                &self.queue,
                |t: &Task| -> (b: bool)
                    ensures b == (t.skip_count >= threshold && t.cpu_cost <= remaining)
                {
                    t.skip_count >= threshold && t.cpu_cost as i64 <= remaining
                },
                Ghost(aged_within(threshold, remaining as int)),
            );
        }

        if remaining >= cpu_cpu_cost as i64 {
            let fitting_cpu = position(
                &self.queue,
                |t: &Task| -> (b: bool)
                    ensures b == (t.kind == Kind::Cpu && t.cpu_cost <= remaining)
                {
                    t.kind == Kind::Cpu && t.cpu_cost as i64 <= remaining
                },
                Ghost(kind_within(Kind::Cpu, remaining as int)),
            );
            if fitting_cpu.is_some() {
                return fitting_cpu;
            }
        }

        let fitting_io = position(
            &self.queue,
            |t: &Task| -> (b: bool) ensures b == (t.kind == Kind::Io && t.cpu_cost <= remaining) {
                t.kind == Kind::Io && t.cpu_cost as i64 <= remaining
            },
            Ghost(kind_within(Kind::Io, remaining as int)),
        );
        if fitting_io.is_some() {
            return fitting_io;
        }
        position(
            &self.queue,
            |t: &Task| -> (b: bool) ensures b == (t.cpu_cost <= remaining) {
                t.cpu_cost as i64 <= remaining
            },
            Ghost(within(remaining as int)),
        )
    }

    /// The place in the queue of the task to dispatch now, if any.
    pub fn select(&self, cfg: &Config) -> (chosen: Option<usize>)
        ensures
            place(chosen) == self@.choice(*cfg),
    {
        if self.queue.len() == 0 || self.active_workers >= cfg.num_workers {
            return None;
        }
        match cfg.policy {
            Policy::Fifo => {
                let remaining: i64 = CPU_BUDGET as i64 - self.active_cpu_load as i64;
                if self.queue[0].cpu_cost as i64 <= remaining {
                    Some(0)
                } else {
                    None
                }
            },
            Policy::BudgetAware { aging_threshold } => self.budget_select(
                cfg.cpu_cpu_cost,
                aging_threshold,
            ),
        }
    }

    /// Whether the next step can count every task that it overtakes.
    pub fn can_step(&self, cfg: &Config) -> (b: bool)
        ensures
            b == self@.counters_have_room(*cfg),
    {
        match self.select(cfg) {
            None => true,
            Some(chosen) => {
                let mut i: usize = 0;
                while i < chosen
                    invariant
                        i <= chosen <= self.queue@.len(),
                        self@.choice(*cfg) == Some(chosen as int),
                        forall|j: int|
                            0 <= j < i ==> (#[trigger] self.queue@[j]).skip_count < u32::MAX,
                    decreases chosen - i,
                {
                    if self.queue[i].skip_count == u32::MAX {
                        return false;
                    }
                    i += 1;
                }
                true
            },
        }
    }

    /// Takes the task at `chosen` out of the queue and counts one more skip
    /// for each task ahead of it.
    fn take(&mut self, chosen: usize) -> (task: Task)
        requires
            chosen < old(self)@.queue.len(),
            forall|i: int|
                0 <= i < chosen ==> (#[trigger] old(self)@.queue[i]).skip_count < u32::MAX,
        ensures
            task == old(self)@.queue[chosen as int],
            final(self)@ == (QueueView {
                queue: old(self)@.dispatch(chosen as int).queue,
                ..old(self)@
            }),
    {
        let ghost before = self.queue@;
        let mut rest = self.queue.split_off(chosen);
        let task = rest.pop_front().unwrap();
        let ghost ahead = before.take(chosen as int);
        let mut i: usize = 0;
        while i < chosen
            invariant
                i <= chosen == ahead.len(),
                forall|j: int| 0 <= j < chosen ==> (#[trigger] ahead[j]).skip_count < u32::MAX,
                self.queue@ == ahead.skip(i as int) + ahead.take(i as int).map_values(
                    |t: Task| overtaken(t),
                ),
                self.active_workers == old(self).active_workers,
                self.active_cpu_load == old(self).active_cpu_load,
                self.generation_done == old(self).generation_done,
            decreases chosen - i,
        {
            let mut t = self.queue.pop_front().unwrap();
            t.skip_count = t.skip_count + 1;
            self.queue.push_back(t);
            i += 1;
        }
        self.queue.append(&mut rest);
        task
    }

    /// The next step of a worker that looks at the queue at `now`: it ends, it
    /// sleeps, or it runs a task, which leaves the queue and takes its share
    /// of the budget.
    pub fn step(&mut self, cfg: &Config, now: u64) -> (step: Step)
        requires
            old(self)@.counters_have_room(*cfg),
        ensures
            step == old(self)@.step(*cfg, now),
            final(self)@ == old(self)@.after_step(*cfg),
    {
        if self.generation_done && self.queue.len() == 0 {
            match cfg.policy {
                Policy::Fifo => {
                    return Step::Exit;
                },
                Policy::BudgetAware { .. } => {
                    if self.active_workers == 0 {
                        return Step::Exit;
                    }
                },
            }
        }
        match self.select(cfg) {
            None => Step::Wait {
                timeout_ms: match cfg.policy {
                    Policy::Fifo => Some(FIFO_POLL_MS),
                    Policy::BudgetAware { .. } => None,
                },
            },
            Some(chosen) => {
                let mut task = self.take(chosen);
                task.start_time = Some(now);
                self.active_workers += 1;
                self.active_cpu_load += task.cpu_cost;
                let wake = match cfg.policy {
                    Policy::BudgetAware { .. } => if self.queue.len() > 0 {
                        Wake::One
                    } else {
                        Wake::Nobody
                    },
                    Policy::Fifo => Wake::Nobody,
                };
                Step::Run { task, wake }
            },
        }
    }

    /// Whether the pool holds a worker and the budget of such a task.
    pub fn can_release(&self, task: &Task) -> (b: bool)
        ensures
            b == (self@.active_workers > 0 && self@.active_cpu_load >= task.cpu_cost),
    {
        self.active_workers > 0 && self.active_cpu_load >= task.cpu_cost
    }

    /// Gives back the worker and the budget of a task that is done.
    pub fn release(&mut self, task: &Task, policy: Policy) -> (wake: Wake)
        requires
            old(self)@.active_workers > 0,
            old(self)@.active_cpu_load >= task.cpu_cost,
        ensures
            final(self)@ == old(self)@.release(task.cpu_cost),
            wake == old(self)@.wake_after_release(policy),
    {
        self.active_workers -= 1;
        self.active_cpu_load -= task.cpu_cost;
        match policy {
            Policy::Fifo => Wake::All,
            Policy::BudgetAware { .. } => if self.generation_done && self.queue.len() == 0 {
                Wake::All
            } else {
                Wake::One
            },
        }
    }

    /// What the pool looks like at `now`.
    pub fn snapshot(&self, now: u64) -> (snapshot: Snapshot)
        ensures
            snapshot.time_ms == millis_between(0, now),
            snapshot.cpu_load == self@.active_cpu_load,
            snapshot.active_workers == self@.active_workers,
            snapshot == self@.snapshot(now),
    {
        Snapshot {
            time_ms: elapsed_ms(0, now),
            cpu_load: self.active_cpu_load,
            active_workers: self.active_workers,
        }
    }
}

} // verus!
