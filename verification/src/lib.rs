//! Task dispatch over a worker pool that shares a bounded CPU budget.
//!
//! Tasks arrive in a queue. A worker that is free asks the queue for its next
//! step under one of two policies: strict arrival order, or a budget-aware
//! choice that guards against starvation by aging.

pub mod aging;
pub mod config;
pub mod ending;
pub mod generator;
pub mod intake;
pub mod laws;
pub mod metrics;
pub mod monitor;
pub mod queue;
pub mod rng;
pub mod task;
pub mod trace;
