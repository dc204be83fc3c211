# Task dispatcher

Two policies for handing tasks to a pool of workers that share a bounded CPU
budget: strict arrival order, and a budget-aware choice that fills the budget
with CPU tasks and keeps any task from starving by aging it. The decisions are
verified with Verus; the threads around them are ordinary Rust.

- `src/task.rs`, `src/config.rs`: tasks and the parameters of a run. Costs and
  loads are integers, in ten-thousandths of the budget, so they add up exactly.
- `src/queue.rs`: the shared queue. `QueueState::step` decides what a worker
  does next, `release` gives back what a finished task held.
- `src/generator.rs`, `src/rng.rs`: the seeded workload. The calls into `rand`
  stand in `rng.rs` and are the only trusted part.
- `src/monitor.rs`, `src/metrics.rs`: the snapshots of a run, and its figures as
  exact fractions.
- `src/laws.rs`, `src/trace.rs`, `src/intake.rs`, `src/ending.rs`,
  `src/aging.rs`: what holds of every step, along every run, of how tasks come
  in, of how a run ends, and of aged tasks.
- `app/`: threads, clock and output. `task_dispatcher fifo` runs the arrival
  order with one task every 20 ms, `task_dispatcher stressed` the budget-aware
  policy under bursts.
