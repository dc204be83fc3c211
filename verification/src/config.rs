//! The parameters of a run.

use crate::task::Kind;
use vstd::prelude::*;

verus! {

/// The whole CPU budget of the pool. Costs and loads are counted in
/// ten-thousandths of it, so 100 units are one percent.
pub const CPU_BUDGET: u32 = 10_000;

/// How a free worker picks its next task.
#[derive(Clone, Copy, Debug, PartialEq, Eq, Structural)]
pub enum Policy {
    /// Strict arrival order: the front of the queue or nothing.
    Fifo,
    /// A CPU task while the budget has room for one, an IO task otherwise, and
    /// ahead of both any task that was skipped `aging_threshold` times.
    BudgetAware { aging_threshold: u32 },
}

/// The parameters of a run.
#[derive(Clone, Copy, Debug, PartialEq, Eq)]
pub struct Config {
    pub num_tasks: usize,
    pub arrival_interval_ms: u64,
    /// How many tasks arrive at each interval.
    pub burst_size: usize,
    pub num_workers: usize,
    pub monitor_interval_ms: u64,
    pub random_seed: u64,
    pub io_cpu_cost: u32,
    pub io_duration_ms: u64,
    pub cpu_cpu_cost: u32,
    pub cpu_duration_ms: u64,
    pub policy: Policy,
}

impl Config {
    /// Arrival order, one task every 20 ms.
    pub fn fifo() -> (cfg: Config)
        ensures
            cfg == (Config {
                num_tasks: 1000,
                arrival_interval_ms: 20,
                burst_size: 1,
                num_workers: 8,
                monitor_interval_ms: 10,
                random_seed: 42,
                io_cpu_cost: 1_000,
                io_duration_ms: 200,
                cpu_cpu_cost: 3_500,
                cpu_duration_ms: 200,
                policy: Policy::Fifo,
            }),
    {
        Config {
            num_tasks: 1000,
            arrival_interval_ms: 20,
            burst_size: 1,
            num_workers: 8,
            monitor_interval_ms: 10,
            random_seed: 42,
            io_cpu_cost: 1_000,
            io_duration_ms: 200,
            cpu_cpu_cost: 3_500,
            cpu_duration_ms: 200,
            policy: Policy::Fifo,
        }
    }

    /// Budget-aware dispatch under bursts: ten tasks every 200 ms, the same
    /// average rate as one every 20 ms, but in spikes.
    pub fn stressed() -> (cfg: Config)
        ensures
            cfg == (Config {
                num_tasks: 1000,
                arrival_interval_ms: 200,
                burst_size: 10,
                num_workers: 8,
                monitor_interval_ms: 10,
                random_seed: 42,
                io_cpu_cost: 1_000,
                io_duration_ms: 200,
                cpu_cpu_cost: 3_500,
                cpu_duration_ms: 200,
                policy: Policy::BudgetAware { aging_threshold: 20 },
            }),
    {
        Config {
            num_tasks: 1000,
            arrival_interval_ms: 200,
            burst_size: 10,
            num_workers: 8,
            monitor_interval_ms: 10,
            random_seed: 42,
            io_cpu_cost: 1_000,
            io_duration_ms: 200,
            cpu_cpu_cost: 3_500,
            cpu_duration_ms: 200,
            policy: Policy::BudgetAware { aging_threshold: 20 },
        }
    }

    /// The CPU cost of a task of the given kind.
    pub open spec fn cost_of(self, kind: Kind) -> u32 {
        match kind {
            Kind::Io => self.io_cpu_cost,
            Kind::Cpu => self.cpu_cpu_cost,
        }
    }

    /// The duration in milliseconds of a task of the given kind.
    pub open spec fn duration_of(self, kind: Kind) -> u64 {
        match kind {
            Kind::Io => self.io_duration_ms,
            Kind::Cpu => self.cpu_duration_ms,
        }
    }

    /// The CPU cost and the duration in milliseconds of a task of the given
    /// kind.
    pub fn task_for_kind(&self, kind: Kind) -> (profile: (u32, u64))
        ensures
            profile == (self.cost_of(kind), self.duration_of(kind)),
    {
        match kind {
            Kind::Io => (self.io_cpu_cost, self.io_duration_ms),
            Kind::Cpu => (self.cpu_cpu_cost, self.cpu_duration_ms),
        }
    }
}

/// Each kind of task has the cost and the duration that the parameters name
/// for it, whatever the other parameters are.
pub proof fn law_each_kind_has_its_own_profile(cfg: Config)
    ensures
        cfg.cost_of(Kind::Io) == cfg.io_cpu_cost,
        cfg.cost_of(Kind::Cpu) == cfg.cpu_cpu_cost,
        cfg.duration_of(Kind::Io) == cfg.io_duration_ms,
        cfg.duration_of(Kind::Cpu) == cfg.cpu_duration_ms,
{
}

} // verus!
