//! The figures of a run, as exact fractions.

use crate::config::{Config, Policy, CPU_BUDGET};
use crate::queue::Snapshot;
use crate::task::{Kind, Task, NANOS_PER_MILLI};
use vstd::prelude::*;

verus! {

/// The largest number of tasks or of snapshots that [`Summary::of`] takes.
/// Within it no product of its fractions leaves 128 bits.
pub const MAX_RECORDS: u64 = 0x100_0000_0000;

/// A non-negative fraction.
#[derive(Clone, Copy, Debug, PartialEq, Eq)]
pub struct Ratio {
    pub num: u128,
    pub den: u128,
}

impl View for Ratio {
    type V = (int, int);

    open spec fn view(&self) -> (int, int) {
        (self.num as int, self.den as int)
    }
}

/// The sum of several values.
pub open spec fn sum(vals: Seq<u64>) -> nat
    decreases vals.len(),
{
    if vals.len() == 0 {
        0
    } else {
        sum(vals.drop_last()) + vals.last() as nat
    }
}

/// The mean of several values, as a numerator and a denominator: their sum
/// over their number, and zero over one where there are none.
pub open spec fn mean(vals: Seq<u64>) -> (int, int) {
    if vals.len() == 0 {
        (0, 1)
    } else {
        (sum(vals) as int, vals.len() as int)
    }
}

/// The value is the greatest of several, and zero where there are none.
pub open spec fn is_greatest(greatest: u64, vals: Seq<u64>) -> bool {
    &&& forall|i: int| 0 <= i < vals.len() ==> #[trigger] vals[i] <= greatest
    &&& greatest == 0 || vals.contains(greatest)
}

/// Accepts the tasks of one kind.
pub open spec fn kind_is(kind: Kind) -> spec_fn(Task) -> bool {
    |t: Task| t.kind == kind
}

/// Accepts the tasks that were skipped at least `threshold` times.
pub open spec fn skipped(threshold: u32) -> spec_fn(Task) -> bool {
    |t: Task| t.skip_count >= threshold
}

/// How long a task waited, in milliseconds.
pub open spec fn wait_of() -> spec_fn(Task) -> u64 {
    |t: Task| t.waited() as u64
}

/// The turnaround of a task, in milliseconds.
pub open spec fn turnaround_of() -> spec_fn(Task) -> u64 {
    |t: Task| t.turned_around() as u64
}

/// The duration of a task, in milliseconds.
pub open spec fn duration_of() -> spec_fn(Task) -> u64 {
    |t: Task| t.duration_ms
}

/// The CPU load in each snapshot.
pub open spec fn loads(snapshots: Seq<Snapshot>) -> Seq<u64> {
    snapshots.map_values(|s: Snapshot| s.cpu_load as u64)
}

/// The number of busy workers in each snapshot.
pub open spec fn busy(snapshots: Seq<Snapshot>) -> Seq<u64> {
    snapshots.map_values(|s: Snapshot| s.active_workers as u64)
}

/// A sum is at most its number of values times a bound on each of them.
proof fn lemma_sum_bound(vals: Seq<u64>, bound: u64)
    requires
        forall|i: int| 0 <= i < vals.len() ==> #[trigger] vals[i] <= bound,
    ensures
        sum(vals) <= vals.len() * bound,
    decreases vals.len(),
{
    if vals.len() > 0 {
        lemma_sum_bound(vals.drop_last(), bound);
        assert(vals.last() <= bound);
        assert(vals.len() * bound == (vals.len() - 1) * bound + bound) by (nonlinear_arith)
            requires
                vals.len() > 0,
        ;
    }
}

/// Adds several values up.
fn add_up(vals: &Vec<u64>) -> (total: u128)
    ensures
        total == sum(vals@),
{
    let mut total: u128 = 0;
    let mut i: usize = 0;
    while i < vals.len()
        invariant
            i <= vals@.len(),
            total == sum(vals@.take(i as int)),
        decreases vals@.len() - i,
    {
        assert(vals@.take(i + 1).drop_last() =~= vals@.take(i as int));
        assert(total <= i * u64::MAX) by {
            lemma_sum_bound(vals@.take(i as int), u64::MAX);
        }
        assert(i * u64::MAX + u64::MAX <= u128::MAX) by (nonlinear_arith)
            requires
                i < usize::MAX,
        ;
        total = total + vals[i] as u128;
        i += 1;
    }
    assert(vals@.take(vals@.len() as int) =~= vals@);
    total
}

/// The mean of several values, and zero where there are none.
pub fn avg(vals: &Vec<u64>) -> (ratio: Ratio)
    ensures
        ratio@ == mean(vals@),
{
    if vals.len() == 0 {
        Ratio { num: 0, den: 1 }
    } else {
        Ratio { num: add_up(vals), den: vals.len() as u128 }
    }
}

/// The greatest of several values, and zero where there are none.
pub fn max_or_zero(vals: &Vec<u64>) -> (greatest: u64)
    ensures
        is_greatest(greatest, vals@),
{
    let mut greatest: u64 = 0;
    let mut i: usize = 0;
    while i < vals.len()
        invariant
            i <= vals@.len(),
            forall|j: int| 0 <= j < i ==> #[trigger] vals@[j] <= greatest,
            greatest == 0 || vals@.contains(greatest),
        decreases vals@.len() - i,
    {
        if vals[i] > greatest {
            greatest = vals[i];
            assert(vals@[i as int] == greatest);
        }
        i += 1;
    }
    greatest
}

/// Picks the tasks that are accepted, in their order.
fn pick<F: Fn(&Task) -> bool>(
    tasks: &Vec<Task>,
    accept: F,
    Ghost(accepted): Ghost<spec_fn(Task) -> bool>,
) -> (picked: Vec<Task>)
    requires
        forall|t: Task| call_requires(accept, (&t,)),
        forall|t: Task, b: bool| call_ensures(accept, (&t,), b) ==> b == accepted(t),
    ensures
        picked@ == tasks@.filter(accepted),
        picked@.len() <= tasks@.len(),
{
    let mut picked: Vec<Task> = Vec::new();
    let mut i: usize = 0;
    assert(tasks@.take(0).filter(accepted) =~= Seq::<Task>::empty()) by {
        reveal(Seq::filter);
    }
    while i < tasks.len()
        invariant
            i <= tasks@.len(),
            picked@.len() <= i,
            forall|t: Task| call_requires(accept, (&t,)),
            forall|t: Task, b: bool| call_ensures(accept, (&t,), b) ==> b == accepted(t),
            picked@ == tasks@.take(i as int).filter(accepted),
        decreases tasks@.len() - i,
    {
        let task = tasks[i];
        proof {
            reveal(Seq::filter);
            assert(tasks@.take(i + 1).drop_last() =~= tasks@.take(i as int));
            assert(tasks@.take(i + 1).last() == task);
        }
        if accept(&task) {
            picked.push(task);
        }
        i += 1;
    }
    assert(tasks@.take(tasks@.len() as int) =~= tasks@);
    picked
}

/// Measures each task.
fn measure<F: Fn(&Task) -> u64>(
    tasks: &Vec<Task>,
    value: F,
    Ghost(valued): Ghost<spec_fn(Task) -> u64>,
) -> (vals: Vec<u64>)
    requires
        forall|t: Task| call_requires(value, (&t,)),
        forall|t: Task, v: u64| call_ensures(value, (&t,), v) ==> v == valued(t),
    ensures
        vals@ == tasks@.map_values(valued),
{
    let mut vals: Vec<u64> = Vec::new();
    let mut i: usize = 0;
    while i < tasks.len()
        invariant
            i <= tasks@.len(),
            forall|t: Task| call_requires(value, (&t,)),
            forall|t: Task, v: u64| call_ensures(value, (&t,), v) ==> v == valued(t),
            vals@ == tasks@.take(i as int).map_values(valued),
        decreases tasks@.len() - i,
    {
        let val: u64 = value(&tasks[i]);
        vals.push(val);
        i += 1;
        assert(vals@ =~= tasks@.take(i as int).map_values(valued));
    }
    assert(tasks@.take(tasks@.len() as int) =~= tasks@);
    vals
}

/// The distance between two fractions.
pub open spec fn distance(a: (int, int), b: (int, int)) -> (int, int) {
    let (x, y) = (a.0 * b.1, b.0 * a.1);
    (if x >= y {
        x - y
    } else {
        y - x
    }, a.1 * b.1)
}

impl Ratio {
    /// The distance between two fractions.
    pub fn gap(&self, other: &Ratio) -> (gap: Ratio)
        requires
            self.num * other.den <= u128::MAX,
            other.num * self.den <= u128::MAX,
            self.den * other.den <= u128::MAX,
        ensures
            gap@ == distance(self@, other@),
    {
        let a: u128 = self.num * other.den;
        let b: u128 = other.num * self.den;
        let num: u128 = if a >= b {
            a - b
        } else {
            b - a
        };
        Ratio { num, den: self.den * other.den }
    }
}

/// The figures of a run.
#[derive(Clone, Copy, Debug, PartialEq, Eq)]
pub struct Summary {
    pub completed: usize,
    /// When the last snapshot was taken, or zero without one.
    pub monitor_time_ms: u64,
    pub total_work_ms: u128,
    pub avg_wait_ms: Ratio,
    pub avg_turnaround_ms: Ratio,
    pub io_completed: usize,
    pub cpu_completed: usize,
    pub max_wait_ms: u64,
    pub avg_cpu_percent: Ratio,
    pub avg_active_workers: Ratio,
    /// The busy part of the pool in percent; undefined for a pool without
    /// workers.
    pub worker_utilization_percent: Option<Ratio>,
    pub avg_io_wait_ms: Ratio,
    pub avg_cpu_wait_ms: Ratio,
    pub fairness_gap_ms: Ratio,
    /// Tasks that had aged by the time they ran. Under arrival order none
    /// ever does.
    pub aged: usize,
    pub snapshots: usize,
}

/// Lists the CPU load in each snapshot.
fn load_list(snapshots: &Vec<Snapshot>) -> (vals: Vec<u64>)
    ensures
        vals@ == loads(snapshots@),
{
    let mut vals: Vec<u64> = Vec::new();
    let mut i: usize = 0;
    while i < snapshots.len()
        invariant
            i <= snapshots@.len(),
            vals@ == loads(snapshots@.take(i as int)),
        decreases snapshots@.len() - i,
    {
        vals.push(snapshots[i].cpu_load as u64);
        i += 1;
        assert(vals@ =~= loads(snapshots@.take(i as int)));
    }
    assert(snapshots@.take(snapshots@.len() as int) =~= snapshots@);
    vals
}

/// Lists the number of busy workers in each snapshot.
fn busy_list(snapshots: &Vec<Snapshot>) -> (vals: Vec<u64>)
    ensures
        vals@ == busy(snapshots@),
{
    let mut vals: Vec<u64> = Vec::new();
    let mut i: usize = 0;
    while i < snapshots.len()
        invariant
            i <= snapshots@.len(),
            vals@ == busy(snapshots@.take(i as int)),
        decreases snapshots@.len() - i,
    {
        vals.push(snapshots[i].active_workers as u64);
        i += 1;
        assert(vals@ =~= busy(snapshots@.take(i as int)));
    }
    assert(snapshots@.take(snapshots@.len() as int) =~= snapshots@);
    vals
}

/// Lists how long each task waited.
fn wait_list(tasks: &Vec<Task>) -> (vals: Vec<u64>)
    ensures
        vals@ == tasks@.map_values(wait_of()),
        sum(vals@) <= tasks@.len() * (u64::MAX / NANOS_PER_MILLI),
{
    let vals = measure(
        tasks,
        |t: &Task| -> (v: u64) ensures v == t.waited() { t.wait_ms() },
        Ghost(wait_of()),
    );
    proof {
        lemma_sum_bound(vals@, u64::MAX / NANOS_PER_MILLI);
    }
    vals
}

/// The mean wait is bounded well enough to be compared with another one.
proof fn lemma_means_have_room(a: Ratio, b: Ratio, m: int, n: int)
    requires
        0 <= m <= MAX_RECORDS,
        0 <= n <= MAX_RECORDS,
        a.num <= m * (u64::MAX / NANOS_PER_MILLI),
        b.num <= n * (u64::MAX / NANOS_PER_MILLI),
        a.den <= m + 1,
        b.den <= n + 1,
    ensures
        a.num * b.den <= u128::MAX,
        b.num * a.den <= u128::MAX,
        a.den * b.den <= u128::MAX,
{
    let most: int = 0x100_0000_0000;
    let wait: int = (u64::MAX / NANOS_PER_MILLI) as int;
    assert(a.num <= most * wait) by (nonlinear_arith)
        requires
            a.num <= m * wait,
            m <= most,
            0 <= wait,
    ;
    assert(b.num <= most * wait) by (nonlinear_arith)
        requires
            b.num <= n * wait,
            n <= most,
            0 <= wait,
    ;
    let (p, q, r, s) = (a.num as int, a.den as int, b.num as int, b.den as int);
    assert(most * wait <= 0x20_0000_0000_0000_0000_0000int);
    let top: int = 0x20_0000_0000_0000_0000_0000;
    let den: int = 0x200_0000_0000;
    assert(p * s <= top * den) by (nonlinear_arith)
        requires
            0 <= p <= top,
            0 <= s <= den,
    ;
    assert(r * q <= top * den) by (nonlinear_arith)
        requires
            0 <= r <= top,
            0 <= q <= den,
    ;
    assert(q * s <= den * den) by (nonlinear_arith)
        requires
            0 <= q <= den,
            0 <= s <= den,
    ;
}

impl Summary {
    /// These are the figures of a run with these parameters that completed
    /// these tasks and took these snapshots.
    pub open spec fn is_of(self, tasks: Seq<Task>, snapshots: Seq<Snapshot>, cfg: Config) -> bool {
        &&& self.completed == tasks.len()
        &&& self.monitor_time_ms == (if snapshots.len() > 0 {
            snapshots.last().time_ms
        } else {
            0
        })
        &&& self.total_work_ms == sum(tasks.map_values(duration_of()))
        &&& self.avg_wait_ms@ == mean(tasks.map_values(wait_of()))
        &&& self.avg_turnaround_ms@ == mean(tasks.map_values(turnaround_of()))
        &&& self.io_completed == tasks.filter(kind_is(Kind::Io)).len()
        &&& self.cpu_completed == tasks.filter(kind_is(Kind::Cpu)).len()
        &&& is_greatest(self.max_wait_ms, tasks.map_values(wait_of()))
        &&& self.avg_cpu_percent@ == (
            mean(loads(snapshots)).0 * 100,
            mean(loads(snapshots)).1 * CPU_BUDGET,
        )
        &&& self.avg_active_workers@ == mean(busy(snapshots))
        &&& (match self.worker_utilization_percent {
            None => cfg.num_workers == 0,
            Some(part) => {
                &&& cfg.num_workers > 0
                &&& part@ == (
                    mean(busy(snapshots)).0 * 100,
                    mean(busy(snapshots)).1 * cfg.num_workers,
                )
            },
        })
        &&& self.avg_io_wait_ms@ == mean(
            tasks.filter(kind_is(Kind::Io)).map_values(wait_of()),
        )
        &&& self.avg_cpu_wait_ms@ == mean(
            tasks.filter(kind_is(Kind::Cpu)).map_values(wait_of()),
        )
        &&& self.fairness_gap_ms@ == distance(
            mean(tasks.filter(kind_is(Kind::Io)).map_values(wait_of())),
            mean(tasks.filter(kind_is(Kind::Cpu)).map_values(wait_of())),
        )
        &&& self.aged == (match cfg.policy {
            Policy::Fifo => 0,
            Policy::BudgetAware { aging_threshold } => tasks.filter(
                skipped(aging_threshold),
            ).len(),
        })
        &&& self.snapshots == snapshots.len()
    }

    /// The figures of a run with these parameters that completed these tasks
    /// and took these snapshots.
    pub fn of(tasks: &Vec<Task>, snapshots: &Vec<Snapshot>, cfg: &Config) -> (summary: Summary)
        requires
            tasks@.len() <= MAX_RECORDS,
            snapshots@.len() <= MAX_RECORDS,
        ensures
            summary.completed == tasks@.len(),
            summary.monitor_time_ms == if snapshots@.len() > 0 {
                snapshots@.last().time_ms
            } else {
                0
            },
            summary.total_work_ms == sum(tasks@.map_values(duration_of())),
            summary.avg_wait_ms@ == mean(tasks@.map_values(wait_of())),
            summary.avg_turnaround_ms@ == mean(tasks@.map_values(turnaround_of())),
            summary.io_completed == tasks@.filter(kind_is(Kind::Io)).len(),
            summary.cpu_completed == tasks@.filter(kind_is(Kind::Cpu)).len(),
            is_greatest(summary.max_wait_ms, tasks@.map_values(wait_of())),
            summary.avg_cpu_percent@ == (
                mean(loads(snapshots@)).0 * 100,
                mean(loads(snapshots@)).1 * CPU_BUDGET,
            ),
            summary.avg_active_workers@ == mean(busy(snapshots@)),
            match summary.worker_utilization_percent {
                None => cfg.num_workers == 0,
                Some(part) => {
                    &&& cfg.num_workers > 0
                    &&& part@ == (
                        mean(busy(snapshots@)).0 * 100,
                        mean(busy(snapshots@)).1 * cfg.num_workers,
                    )
                },
            },
            summary.avg_io_wait_ms@ == mean(
                tasks@.filter(kind_is(Kind::Io)).map_values(wait_of()),
            ),
            summary.avg_cpu_wait_ms@ == mean(
                tasks@.filter(kind_is(Kind::Cpu)).map_values(wait_of()),
            ),
            summary.fairness_gap_ms@ == distance(
                mean(tasks@.filter(kind_is(Kind::Io)).map_values(wait_of())),
                mean(tasks@.filter(kind_is(Kind::Cpu)).map_values(wait_of())),
            ),
            summary.aged == match cfg.policy {
                Policy::Fifo => 0,
                Policy::BudgetAware { aging_threshold } => tasks@.filter(
                    skipped(aging_threshold),
                ).len(),
            },
            summary.snapshots == snapshots@.len(),
            summary.is_of(tasks@, snapshots@, *cfg),
    {
        let io = pick(
            tasks,
            |t: &Task| -> (b: bool) ensures b == (t.kind == Kind::Io) { t.kind == Kind::Io },
            Ghost(kind_is(Kind::Io)),
        );
        let cpu = pick(
            tasks,
            |t: &Task| -> (b: bool) ensures b == (t.kind == Kind::Cpu) { t.kind == Kind::Cpu },
            Ghost(kind_is(Kind::Cpu)),
        );
        let durations = measure(
            tasks,
            |t: &Task| -> (v: u64) ensures v == t.duration_ms { t.duration_ms },
            Ghost(duration_of()),
        );
        let turnarounds = measure(
            tasks,
            |t: &Task| -> (v: u64) ensures v == t.turned_around() { t.turnaround_ms() },
            Ghost(turnaround_of()),
        );
        let waits = wait_list(tasks);
        let avg_io_wait_ms = avg(&wait_list(&io));
        let avg_cpu_wait_ms = avg(&wait_list(&cpu));
        proof {
            lemma_means_have_room(
                avg_io_wait_ms,
                avg_cpu_wait_ms,
                io@.len() as int,
                cpu@.len() as int,
            );
        }
        let fairness_gap_ms = avg_io_wait_ms.gap(&avg_cpu_wait_ms);

        let load_vals = load_list(snapshots);
        let busy_vals = busy_list(snapshots);
        let avg_load = avg(&load_vals);
        let avg_active_workers = avg(&busy_vals);
        let count = snapshots.len();
        proof {
            lemma_sum_bound(load_vals@, u32::MAX as u64);
            lemma_sum_bound(busy_vals@, u64::MAX);
            let most: int = 0x100_0000_0000;
            let (load, work, n) = (avg_load.num as int, avg_active_workers.num as int, count as int);
            assert(load <= most * u32::MAX) by (nonlinear_arith)
                requires
                    0 <= n <= most,
                    load <= n * u32::MAX,
            ;
            assert(work <= most * u64::MAX) by (nonlinear_arith)
                requires
                    0 <= n <= most,
                    work <= n * u64::MAX,
            ;
            let (den, workers) = (avg_active_workers.den as int, cfg.num_workers as int);
            assert(den * workers <= (most + 1) * u64::MAX) by (nonlinear_arith)
                requires
                    0 <= den <= most + 1,
                    0 <= workers <= u64::MAX,
            ;
        }
        let avg_cpu_percent = Ratio {
            num: avg_load.num * 100,
            den: avg_load.den * CPU_BUDGET as u128,
        };
        let worker_utilization_percent = if cfg.num_workers == 0 {
            None
        } else {
            Some(
                Ratio {
                    num: avg_active_workers.num * 100,
                    den: avg_active_workers.den * cfg.num_workers as u128,
                },
            )
        };
        let aged = match cfg.policy {
            Policy::Fifo => 0,
            Policy::BudgetAware { aging_threshold } => pick(
                tasks,
                |t: &Task| -> (b: bool) ensures b == (t.skip_count >= aging_threshold) {
                    t.skip_count >= aging_threshold
                },
                Ghost(skipped(aging_threshold)),
            ).len(),
        };
        Summary {
            completed: tasks.len(),
            monitor_time_ms: if count > 0 {
                snapshots[count - 1].time_ms
            } else {
                0
            },
            total_work_ms: add_up(&durations),
            avg_wait_ms: avg(&waits),
            avg_turnaround_ms: avg(&turnarounds),
            io_completed: io.len(),
            cpu_completed: cpu.len(),
            max_wait_ms: max_or_zero(&waits),
            avg_cpu_percent,
            avg_active_workers,
            worker_utilization_percent,
            avg_io_wait_ms,
            avg_cpu_wait_ms,
            fairness_gap_ms,
            aged,
            snapshots: count,
        }
    }
}

/// Every task is of one of the two kinds: their numbers add up, and so does
/// any measure of the tasks.
pub proof fn law_kinds_add_up(tasks: Seq<Task>, valued: spec_fn(Task) -> u64)
    ensures
        tasks.filter(kind_is(Kind::Io)).len() + tasks.filter(kind_is(Kind::Cpu)).len()
            == tasks.len(),
        sum(tasks.filter(kind_is(Kind::Io)).map_values(valued)) + sum(
            tasks.filter(kind_is(Kind::Cpu)).map_values(valued),
        ) == sum(tasks.map_values(valued)),
    decreases tasks.len(),
{
    reveal(Seq::filter);
    if tasks.len() > 0 {
        let rest = tasks.drop_last();
        let task = tasks.last();
        law_kinds_add_up(rest, valued);
        let io = rest.filter(kind_is(Kind::Io));
        let cpu = rest.filter(kind_is(Kind::Cpu));
        assert(tasks.map_values(valued).drop_last() =~= rest.map_values(valued));
        assert(io.push(task).map_values(valued).drop_last() =~= io.map_values(valued));
        assert(cpu.push(task).map_values(valued).drop_last() =~= cpu.map_values(valued));
    }
}

/// A mean is at most the greatest value.
pub proof fn law_mean_is_at_most_greatest(vals: Seq<u64>, greatest: u64)
    requires
        is_greatest(greatest, vals),
    ensures
        mean(vals).0 <= greatest * mean(vals).1,
        mean(vals).1 > 0,
{
    lemma_sum_bound(vals, greatest);
    assert(vals.len() * greatest == greatest * vals.len()) by (nonlinear_arith);
}

/// Where no snapshot shows a load above the budget or more busy workers than
/// there are, neither the mean CPU consumption nor the utilization of the
/// workers is above a hundred percent.
pub proof fn law_consumption_is_at_most_full(snapshots: Seq<Snapshot>, num_workers: usize)
    requires
        forall|i: int|
            0 <= i < snapshots.len() ==> (#[trigger] snapshots[i]).cpu_load <= CPU_BUDGET,
        forall|i: int|
            0 <= i < snapshots.len() ==> (#[trigger] snapshots[i]).active_workers <= num_workers,
    ensures
        mean(loads(snapshots)).0 * 100 <= 100 * (mean(loads(snapshots)).1 * CPU_BUDGET),
        mean(busy(snapshots)).0 * 100 <= 100 * (mean(busy(snapshots)).1 * num_workers),
{
    lemma_sum_bound(loads(snapshots), CPU_BUDGET as u64);
    lemma_sum_bound(busy(snapshots), num_workers as u64);
}

/// The parts of a fraction are seen as they are.
pub proof fn law_the_view_shows_the_fraction(ratio: Ratio)
    ensures
        ratio@.0 == ratio.num,
        ratio@.1 == ratio.den,
{
}

/// A sum starts at nothing and grows by each value that is added.
pub proof fn law_each_value_counts_once(vals: Seq<u64>, val: u64)
    ensures
        sum(Seq::empty()) == 0,
        sum(vals.push(val)) == sum(vals) + val,
{
    assert(vals.push(val).drop_last() =~= vals);
}

/// The mean of some values is the fraction that, taken as often as there are
/// values, gives their sum. Of no values it is zero.
pub proof fn law_mean_times_number_is_sum(vals: Seq<u64>)
    ensures
        mean(vals).1 > 0,
        mean(vals).0 * vals.len() == sum(vals) * mean(vals).1,
        vals.len() == 0 ==> mean(vals).0 == 0,
        vals.len() > 0 ==> mean(vals).1 == vals.len(),
{
}

/// The greatest of some values is one of them and none is above it. Of no
/// values it is zero.
pub proof fn law_greatest_is_reached(greatest: u64, vals: Seq<u64>)
    requires
        is_greatest(greatest, vals),
    ensures
        forall|i: int| 0 <= i < vals.len() ==> #[trigger] vals[i] <= greatest,
        vals.len() > 0 ==> exists|i: int| 0 <= i < vals.len() && #[trigger] vals[i] == greatest,
        vals.len() == 0 ==> greatest == 0,
{
    if vals.len() > 0 {
        if greatest == 0 {
            assert(vals[0] == greatest);
        }
    }
}

/// The distance between two fractions is what must be added to the smaller to
/// get the larger, over their common denominator, from either side.
pub proof fn law_distance_bridges_two_fractions(a: (int, int), b: (int, int))
    ensures
        distance(a, b).0 >= 0,
        distance(a, b).1 == a.1 * b.1,
        a.0 * b.1 <= b.0 * a.1 ==> a.0 * b.1 + distance(a, b).0 == b.0 * a.1,
        a.0 * b.1 >= b.0 * a.1 ==> b.0 * a.1 + distance(a, b).0 == a.0 * b.1,
        distance(b, a) == distance(a, b),
{
    assert(a.1 * b.1 == b.1 * a.1) by (nonlinear_arith);
}

/// Each task is measured by its own record: whether it is of a kind, whether
/// it was skipped so often, how long it waited, how long it took and how long
/// it ran for.
pub proof fn law_tasks_are_measured_by_their_record(task: Task, kind: Kind, threshold: u32)
    ensures
        kind_is(kind)(task) <==> task.kind == kind,
        skipped(threshold)(task) <==> task.skip_count >= threshold,
        duration_of()(task) == task.duration_ms,
        match (task.enqueue_time, task.start_time) {
            (Some(queued), Some(started)) => if queued <= started {
                wait_of()(task) * 1_000_000 <= started - queued < (wait_of()(task) + 1) * 1_000_000
            } else {
                wait_of()(task) == 0
            },
            _ => wait_of()(task) == 0,
        },
        match (task.enqueue_time, task.finish_time) {
            (Some(queued), Some(finished)) => if queued <= finished {
                turnaround_of()(task) * 1_000_000 <= finished - queued < (turnaround_of()(task)
                    + 1) * 1_000_000
            } else {
                turnaround_of()(task) == 0
            },
            _ => turnaround_of()(task) == 0,
        },
{
}

/// Each snapshot counts with the load and the busy workers that it shows.
pub proof fn law_snapshots_count_with_what_they_show(snapshots: Seq<Snapshot>)
    ensures
        loads(snapshots).len() == snapshots.len(),
        busy(snapshots).len() == snapshots.len(),
        forall|i: int|
            0 <= i < snapshots.len() ==> #[trigger] loads(snapshots)[i] == snapshots[i].cpu_load,
        forall|i: int|
            0 <= i < snapshots.len() ==> #[trigger] busy(snapshots)[i]
                == snapshots[i].active_workers,
{
}

/// A run without tasks and snapshots has nothing to show: every count, every
/// sum and every mean is zero.
pub proof fn law_figures_start_at_nothing(summary: Summary, cfg: Config)
    requires
        summary.is_of(Seq::empty(), Seq::empty(), cfg),
    ensures
        summary.completed == 0,
        summary.monitor_time_ms == 0,
        summary.total_work_ms == 0,
        summary.avg_wait_ms.num == 0,
        summary.avg_turnaround_ms.num == 0,
        summary.io_completed == 0,
        summary.cpu_completed == 0,
        summary.max_wait_ms == 0,
        summary.avg_cpu_percent.num == 0,
        summary.avg_active_workers.num == 0,
        summary.avg_io_wait_ms.num == 0,
        summary.avg_cpu_wait_ms.num == 0,
        summary.fairness_gap_ms.num == 0,
        summary.aged == 0,
        summary.snapshots == 0,
{
    reveal(Seq::filter);
    assert(Seq::<Task>::empty().map_values(wait_of()).len() == 0);
    if summary.max_wait_ms != 0 {
        law_greatest_is_reached(
            summary.max_wait_ms,
            Seq::<Task>::empty().map_values(wait_of()),
        );
    }
}

/// One more value of a measure.
proof fn lemma_map_push(tasks: Seq<Task>, task: Task, valued: spec_fn(Task) -> u64)
    ensures
        tasks.push(task).map_values(valued) == tasks.map_values(valued).push(valued(task)),
        sum(tasks.push(task).map_values(valued)) == sum(tasks.map_values(valued)) + valued(task),
{
    assert(tasks.push(task).map_values(valued) =~= tasks.map_values(valued).push(valued(task)));
    law_each_value_counts_once(tasks.map_values(valued), valued(task));
}

/// One more task is accepted or not.
proof fn lemma_filter_push(tasks: Seq<Task>, task: Task, accept: spec_fn(Task) -> bool)
    ensures
        tasks.push(task).filter(accept) == if accept(task) {
            tasks.filter(accept).push(task)
        } else {
            tasks.filter(accept)
        },
{
    reveal(Seq::filter);
    assert(tasks.push(task).drop_last() =~= tasks);
}

/// What one more completed task adds to the figures of a run: one to the
/// number of tasks and to that of its kind and no other, its duration to the
/// work, its wait and its turnaround to the sums behind their means, one to
/// the aged tasks if it was skipped often enough, and its wait to those that
/// the longest is taken from. What the monitor saw stays as it was.
pub proof fn law_one_more_task_adds_its_own(
    before: Summary,
    after: Summary,
    tasks: Seq<Task>,
    task: Task,
    snapshots: Seq<Snapshot>,
    cfg: Config,
)
    requires
        before.is_of(tasks, snapshots, cfg),
        after.is_of(tasks.push(task), snapshots, cfg),
    ensures
        after.completed == before.completed + 1,
        after.total_work_ms == before.total_work_ms + task.duration_ms,
        after.avg_wait_ms.num == before.avg_wait_ms.num + task.waited(),
        after.avg_wait_ms.den == after.completed,
        after.avg_turnaround_ms.num == before.avg_turnaround_ms.num + task.turned_around(),
        after.avg_turnaround_ms.den == after.completed,
        after.max_wait_ms == if task.waited() > before.max_wait_ms {
            task.waited()
        } else {
            before.max_wait_ms as int
        },
        task.kind == Kind::Io ==> {
            &&& after.io_completed == before.io_completed + 1
            &&& after.avg_io_wait_ms.num == before.avg_io_wait_ms.num + task.waited()
            &&& after.avg_io_wait_ms.den == after.io_completed
            &&& after.cpu_completed == before.cpu_completed
            &&& after.avg_cpu_wait_ms == before.avg_cpu_wait_ms
        },
        task.kind == Kind::Cpu ==> {
            &&& after.cpu_completed == before.cpu_completed + 1
            &&& after.avg_cpu_wait_ms.num == before.avg_cpu_wait_ms.num + task.waited()
            &&& after.avg_cpu_wait_ms.den == after.cpu_completed
            &&& after.io_completed == before.io_completed
            &&& after.avg_io_wait_ms == before.avg_io_wait_ms
        },
        after.aged == before.aged + match cfg.policy {
            Policy::Fifo => 0int,
            Policy::BudgetAware { aging_threshold } => if task.skip_count >= aging_threshold {
                1int
            } else {
                0int
            },
        },
        after.monitor_time_ms == before.monitor_time_ms,
        after.avg_cpu_percent == before.avg_cpu_percent,
        after.avg_active_workers == before.avg_active_workers,
        after.snapshots == before.snapshots,
{
    lemma_map_push(tasks, task, duration_of());
    lemma_map_push(tasks, task, wait_of());
    lemma_map_push(tasks, task, turnaround_of());
    lemma_filter_push(tasks, task, kind_is(Kind::Io));
    lemma_filter_push(tasks, task, kind_is(Kind::Cpu));
    lemma_map_push(tasks.filter(kind_is(Kind::Io)), task, wait_of());
    lemma_map_push(tasks.filter(kind_is(Kind::Cpu)), task, wait_of());
    if let Policy::BudgetAware { aging_threshold } = cfg.policy {
        lemma_filter_push(tasks, task, skipped(aging_threshold));
    }
    lemma_greatest_push(
        tasks.map_values(wait_of()),
        wait_of()(task),
        before.max_wait_ms,
        after.max_wait_ms,
    );
}

/// One more value is the greatest, or the greatest stays.
proof fn lemma_greatest_push(vals: Seq<u64>, val: u64, before: u64, after: u64)
    requires
        is_greatest(before, vals),
        is_greatest(after, vals.push(val)),
    ensures
        after == if val > before {
            val
        } else {
            before
        },
{
    let all = vals.push(val);
    law_greatest_is_reached(before, vals);
    law_greatest_is_reached(after, all);
    assert(all[vals.len() as int] == val);
    if vals.len() > 0 {
        let i = choose|i: int| 0 <= i < vals.len() && #[trigger] vals[i] == before;
        assert(all[i] == before);
    }
    let j = choose|j: int| 0 <= j < all.len() && #[trigger] all[j] == after;
    if j < vals.len() {
        assert(vals[j] == after);
    }
}

/// What one more snapshot adds to the figures of a run: one to their number,
/// its load in percent of the budget and its busy workers to the sums behind
/// their means, and its time for the time of the last. The figures of the
/// tasks stay as they were.
pub proof fn law_one_more_snapshot_adds_its_own(
    before: Summary,
    after: Summary,
    tasks: Seq<Task>,
    snapshots: Seq<Snapshot>,
    snapshot: Snapshot,
    cfg: Config,
)
    requires
        before.is_of(tasks, snapshots, cfg),
        after.is_of(tasks, snapshots.push(snapshot), cfg),
    ensures
        after.snapshots == before.snapshots + 1,
        after.monitor_time_ms == snapshot.time_ms,
        after.avg_cpu_percent.num == before.avg_cpu_percent.num + 100 * snapshot.cpu_load,
        after.avg_cpu_percent.den == after.snapshots * CPU_BUDGET,
        after.avg_active_workers.num == before.avg_active_workers.num + snapshot.active_workers,
        after.avg_active_workers.den == after.snapshots,
        after.completed == before.completed,
        after.total_work_ms == before.total_work_ms,
        after.avg_wait_ms == before.avg_wait_ms,
        after.avg_turnaround_ms == before.avg_turnaround_ms,
        after.io_completed == before.io_completed,
        after.cpu_completed == before.cpu_completed,
        after.max_wait_ms == before.max_wait_ms,
        after.avg_io_wait_ms == before.avg_io_wait_ms,
        after.avg_cpu_wait_ms == before.avg_cpu_wait_ms,
        after.fairness_gap_ms == before.fairness_gap_ms,
        after.aged == before.aged,
{
    let all = snapshots.push(snapshot);
    assert(loads(all) =~= loads(snapshots).push(snapshot.cpu_load as u64));
    assert(busy(all) =~= busy(snapshots).push(snapshot.active_workers as u64));
    law_each_value_counts_once(loads(snapshots), snapshot.cpu_load as u64);
    law_each_value_counts_once(busy(snapshots), snapshot.active_workers as u64);
    let waits = tasks.map_values(wait_of());
    law_greatest_is_reached(before.max_wait_ms, waits);
    law_greatest_is_reached(after.max_wait_ms, waits);
    if waits.len() > 0 {
        let i = choose|i: int| 0 <= i < waits.len() && #[trigger] waits[i] == before.max_wait_ms;
        let j = choose|j: int| 0 <= j < waits.len() && #[trigger] waits[j] == after.max_wait_ms;
        assert(waits[i] <= after.max_wait_ms && waits[j] <= before.max_wait_ms);
    }
}

/// The figures of a run agree with each other: the kinds make up all tasks and
/// their waits all waits, the utilization is the busy part of the pool in
/// percent, and the fairness gap lies between the mean waits of the kinds.
pub proof fn law_figures_agree(
    summary: Summary,
    tasks: Seq<Task>,
    snapshots: Seq<Snapshot>,
    cfg: Config,
)
    requires
        summary.is_of(tasks, snapshots, cfg),
    ensures
        summary.completed == tasks.len(),
        summary.snapshots == snapshots.len(),
        summary.io_completed + summary.cpu_completed == summary.completed,
        summary.avg_io_wait_ms.num + summary.avg_cpu_wait_ms.num == summary.avg_wait_ms.num,
        summary.avg_wait_ms.num <= summary.max_wait_ms * summary.avg_wait_ms.den,
        summary.worker_utilization_percent is None <==> cfg.num_workers == 0,
        summary.worker_utilization_percent matches Some(part) ==> {
            &&& part.num == 100 * summary.avg_active_workers.num
            &&& part.den == summary.avg_active_workers.den * cfg.num_workers
        },
        ({
            let io = summary.avg_io_wait_ms.num * summary.avg_cpu_wait_ms.den;
            let cpu = summary.avg_cpu_wait_ms.num * summary.avg_io_wait_ms.den;
            &&& summary.fairness_gap_ms.den == summary.avg_io_wait_ms.den
                * summary.avg_cpu_wait_ms.den
            &&& io <= cpu ==> io + summary.fairness_gap_ms.num == cpu
            &&& cpu <= io ==> cpu + summary.fairness_gap_ms.num == io
        }),
        summary.avg_wait_ms.den > 0 && summary.avg_turnaround_ms.den > 0,
        summary.avg_io_wait_ms.den > 0 && summary.avg_cpu_wait_ms.den > 0,
        summary.avg_cpu_percent.den > 0 && summary.avg_active_workers.den > 0,
{
    law_kinds_add_up(tasks, wait_of());
    law_mean_is_at_most_greatest(tasks.map_values(wait_of()), summary.max_wait_ms);
}

} // verus!
