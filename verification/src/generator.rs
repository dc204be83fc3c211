//! The workload: which tasks arrive, in which order and in bursts of what
//! size.

use crate::config::Config;
use crate::rng::{random_ratio, seeded};
use crate::task::{Kind, Task};
use rand::rngs::StdRng;
use vstd::prelude::*;

verus! {

/// Seven tasks out of [`IO_ODDS_OUT_OF`] are IO tasks.
pub const IO_ODDS: u32 = 7;

/// The base of [`IO_ODDS`].
pub const IO_ODDS_OUT_OF: u32 = 10;

/// The kind of task that one draw of the generator decides on.
pub open spec fn kind_for_draw(io: bool) -> Kind {
    if io {
        Kind::Io
    } else {
        Kind::Cpu
    }
}

/// The kind of task that one draw decides on: IO on a hit, CPU otherwise.
pub fn kind_of_draw(io: bool) -> (kind: Kind)
    ensures
        kind == kind_for_draw(io),
{
    if io {
        Kind::Io
    } else {
        Kind::Cpu
    }
}

/// The kind of the task at place `index`, counted from zero, of the workload
/// that grows from `seed`.
pub open spec fn workload_kind(seed: u64, index: nat) -> Kind {
    kind_for_draw(
        crate::rng::seeded_words(seed)[index] < crate::rng::ratio_threshold(
            IO_ODDS,
            IO_ODDS_OUT_OF,
        ),
    )
}

/// The task that follows `sent` others, given its kind.
pub open spec fn numbered_task(cfg: Config, sent: nat, kind: Kind, now: u64) -> Task {
    Task::arriving((sent + 1) as u32, kind, cfg.cost_of(kind), cfg.duration_of(kind), now)
}

/// The task that follows `sent` others, given its kind: its number is one
/// more than theirs, its cost and duration are those of its kind.
pub fn make_task(cfg: &Config, sent: usize, kind: Kind, now: u64) -> (task: Task)
    requires
        sent < usize::MAX,
    ensures
        task == numbered_task(*cfg, sent as nat, kind, now),
{
    let (cpu_cost, duration_ms) = cfg.task_for_kind(kind);
    Task::new((sent + 1) as u32, kind, cpu_cost, duration_ms, now)
}

/// The task that a run with these parameters makes after `sent` others, or
/// nothing once all have been made.
pub open spec fn task_after(cfg: Config, sent: nat, now: u64) -> Option<Task> {
    if sent < cfg.num_tasks {
        Some(numbered_task(cfg, sent, workload_kind(cfg.random_seed, sent), now))
    } else {
        None
    }
}

/// How many tasks arrive at the interval that follows `sent` tasks: a burst,
/// or as many as are left where they are fewer.
pub open spec fn burst_after(cfg: Config, sent: nat) -> nat {
    if sent + cfg.burst_size <= cfg.num_tasks {
        cfg.burst_size as nat
    } else {
        (cfg.num_tasks - sent) as nat
    }
}

/// How many tasks have arrived after a number of intervals.
pub open spec fn sent_after(cfg: Config, intervals: nat) -> nat
    decreases intervals,
{
    if intervals == 0 {
        0
    } else {
        let before = sent_after(cfg, (intervals - 1) as nat);
        before + burst_after(cfg, before)
    }
}

/// The source of the tasks of a run.
pub struct Generator {
    cfg: Config,
    rng: StdRng,
    sent: usize,
}

impl Generator {
    /// The parameters of the run.
    pub closed spec fn config(self) -> Config {
        self.cfg
    }

    /// How many tasks have been made.
    pub closed spec fn sent(self) -> nat {
        self.sent as nat
    }

    /// No more tasks have been made than the run has, and the draws to come
    /// are those of the seed from the next task on.
    #[verifier::type_invariant]
    closed spec fn in_step_with_seed(self) -> bool {
        &&& self.sent <= self.cfg.num_tasks
        &&& forall|i: nat|
            #[trigger] crate::rng::words_of(self.rng)[i] == crate::rng::seeded_words(
                self.cfg.random_seed,
            )[i + self.sent as nat]
    }

    /// The source of the tasks of a run with these parameters.
    pub fn new(cfg: Config) -> (generator: Generator)
        ensures
            generator.config() == cfg,
            generator.sent() == 0,
    {
        let rng = seeded(cfg.random_seed);
        Generator { cfg, rng, sent: 0 }
    }

    /// How many tasks arrive at the next interval: a burst, or as many as are
    /// left where they are fewer. Zero once every task has been made.
    pub fn next_burst(&self) -> (burst: usize)
        ensures
            burst == burst_after(self.config(), self.sent()),
            self.sent() <= self.config().num_tasks,
    {
        proof {
            use_type_invariant(self);
        }
        let left: usize = self.cfg.num_tasks - self.sent;
        if self.cfg.burst_size <= left {
            self.cfg.burst_size
        } else {
            left
        }
    }

    /// Whether every task has been made.
    pub fn is_done(&self) -> (done: bool)
        ensures
            done == (self.sent() == self.config().num_tasks),
    {
        proof {
            use_type_invariant(self);
        }
        self.sent >= self.cfg.num_tasks
    }

    /// Makes the next task, which arrives at `now`, or nothing once every task
    /// has been made. Returns the source of the tasks after it as well.
    pub fn next_task(self, now: u64) -> (next: (Generator, Option<Task>))
        ensures
            next.0.config() == self.config(),
            self.sent() < self.config().num_tasks ==> {
                &&& next.1 == Some(
                    numbered_task(
                        self.config(),
                        self.sent(),
                        workload_kind(self.config().random_seed, self.sent()),
                        now,
                    ),
                )
                &&& next.0.sent() == self.sent() + 1
            },
            self.sent() >= self.config().num_tasks ==> next.1 is None && next.0.sent()
                == self.sent(),
            next.1 == task_after(self.config(), self.sent(), now),
    {
        proof {
            use_type_invariant(&self);
        }
        if self.sent >= self.cfg.num_tasks {
            return (self, None);
        }
        let Generator { cfg, mut rng, sent } = self;
        let io = random_ratio(&mut rng, IO_ODDS, IO_ODDS_OUT_OF);
        let task = make_task(&cfg, sent, kind_of_draw(io), now);
        (Generator { cfg, rng, sent: sent + 1 }, Some(task))
    }
}

/// Every interval brings a full burst until the tasks run out: after any
/// number of intervals a burst's worth of tasks has come for each of them, or
/// all there are.
pub proof fn law_bursts_add_up(cfg: Config, intervals: nat)
    ensures
        sent_after(cfg, intervals) == if intervals * cfg.burst_size <= cfg.num_tasks {
            intervals * cfg.burst_size
        } else {
            cfg.num_tasks as int
        },
    decreases intervals,
{
    if intervals > 0 {
        law_bursts_add_up(cfg, (intervals - 1) as nat);
        assert(intervals * cfg.burst_size == (intervals - 1) * cfg.burst_size + cfg.burst_size)
            by (nonlinear_arith)
            requires
                intervals > 0,
        ;
    } else {
        assert(0 * cfg.burst_size == 0);
    }
}

/// The workload depends on the seed and on what the kinds cost, and neither on
/// the policy nor on the bursts: two runs that agree on those see the same
/// task in every place, so that policies can be compared.
pub proof fn law_same_seed_same_workload(a: Config, b: Config, sent: nat, now: u64)
    requires
        a.random_seed == b.random_seed,
        forall|kind: Kind| #[trigger] a.cost_of(kind) == b.cost_of(kind),
        forall|kind: Kind| #[trigger] a.duration_of(kind) == b.duration_of(kind),
    ensures
        numbered_task(a, sent, workload_kind(a.random_seed, sent), now) == numbered_task(
            b,
            sent,
            workload_kind(b.random_seed, sent),
            now,
        ),
{
}

/// Tasks are numbered from one, in the order in which they are made, and no
/// number occurs twice while the numbers last.
pub proof fn law_numbers_are_distinct(
    cfg: Config,
    i: nat,
    j: nat,
    a: Kind,
    b: Kind,
    s: u64,
    t: u64,
)
    requires
        i < j < u32::MAX,
    ensures
        numbered_task(cfg, i, a, s).id == i + 1,
        numbered_task(cfg, i, a, s).id < numbered_task(cfg, j, b, t).id,
{
}

/// The kind of the task at each place is decided by the word that the seeded
/// generator has at that place: an IO task on a hit at odds of seven in ten, a
/// CPU task otherwise.
pub proof fn law_each_draw_decides_one_kind(seed: u64, index: nat)
    ensures
        workload_kind(seed, index) == Kind::Io <==> crate::rng::seeded_words(seed)[index]
            < crate::rng::ratio_threshold(7, 10),
        kind_for_draw(true) == Kind::Io,
        kind_for_draw(false) == Kind::Cpu,
{
}

/// Each task is made as its place and its kind say: numbered one more than
/// those before it, as far as numbers of 32 bits go, with the cost and the
/// duration of its kind, arriving at the given instant, and not touched since.
pub proof fn law_tasks_are_made_to_measure(cfg: Config, sent: u64, kind: Kind, now: u64)
    requires
        sent < u64::MAX,
    ensures
        ({
            let task = numbered_task(cfg, sent as nat, kind, now);
            &&& task.id == (sent + 1) % 0x1_0000_0000
            &&& task.kind == kind
            &&& kind == Kind::Io ==> task.cpu_cost == cfg.io_cpu_cost && task.duration_ms
                == cfg.io_duration_ms
            &&& kind == Kind::Cpu ==> task.cpu_cost == cfg.cpu_cpu_cost && task.duration_ms
                == cfg.cpu_duration_ms
            &&& task.arrival_time == now
            &&& task.enqueue_time is None
            &&& task.start_time is None
            &&& task.finish_time is None
            &&& task.skip_count == 0
        }),
{
    let number: u64 = (sent + 1) as u64;
    assert(number as u32 == number % 0x1_0000_0000) by (bit_vector);
}

/// A run makes as many tasks as it is to have and no more. The task at each
/// place takes its kind from the word of the seed at that very place, its cost
/// and duration from its kind, and its number from the place, as far as numbers
/// of 32 bits go.
pub proof fn law_the_seed_fixes_the_workload(cfg: Config, sent: u64, now: u64)
    requires
        sent < u64::MAX,
    ensures
        task_after(cfg, sent as nat, now) is Some <==> sent < cfg.num_tasks,
        task_after(cfg, sent as nat, now) matches Some(task) ==> {
            let io = crate::rng::seeded_words(cfg.random_seed)[sent as nat]
                < crate::rng::ratio_threshold(7, 10);
            &&& task.id == (sent + 1) % 0x1_0000_0000
            &&& io ==> task.kind == Kind::Io && task.cpu_cost == cfg.io_cpu_cost
                && task.duration_ms == cfg.io_duration_ms
            &&& !io ==> task.kind == Kind::Cpu && task.cpu_cost == cfg.cpu_cpu_cost
                && task.duration_ms == cfg.cpu_duration_ms
            &&& task.arrival_time == now
            &&& task.enqueue_time is None
            &&& task.start_time is None
            &&& task.finish_time is None
            &&& task.skip_count == 0
        },
{
    let kind = workload_kind(cfg.random_seed, sent as nat);
    law_tasks_are_made_to_measure(cfg, sent, kind, now);
    law_each_draw_decides_one_kind(cfg.random_seed, sent as nat);
}

/// A burst is as large as it can be: no larger than bursts are, no larger than
/// what is left, and equal to one of them.
pub proof fn law_bursts_are_as_large_as_can_be(cfg: Config, sent: nat)
    requires
        sent <= cfg.num_tasks,
    ensures
        burst_after(cfg, sent) <= cfg.burst_size,
        sent + burst_after(cfg, sent) <= cfg.num_tasks,
        burst_after(cfg, sent) == cfg.burst_size || sent + burst_after(cfg, sent)
            == cfg.num_tasks,
{
}

} // verus!
