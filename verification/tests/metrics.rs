use task_dispatcher::config::Config;
use task_dispatcher::metrics::{avg, max_or_zero, Ratio, Summary};
use task_dispatcher::queue::Snapshot;
use task_dispatcher::task::{Kind, Task};

fn ratio(num: u128, den: u128) -> Ratio {
    Ratio { num, den }
}

fn done(id: u32, kind: Kind, wait_ms: u64, run_ms: u64, skip_count: u32) -> Task {
    let start = 1_000_000 * (5 + wait_ms);
    Task {
        enqueue_time: Some(5_000_000),
        start_time: Some(start),
        finish_time: Some(start + 1_000_000 * run_ms),
        skip_count,
        ..Task::new(id, kind, 1_000, run_ms, 0)
    }
}

fn some_tasks() -> Vec<Task> {
    vec![
        done(1, Kind::Io, 10, 200, 0),
        done(2, Kind::Cpu, 40, 200, 20),
        done(3, Kind::Io, 25, 100, 19),
        done(4, Kind::Cpu, 60, 200, 21),
        done(5, Kind::Io, 0, 200, 0),
    ]
}

fn some_snapshots() -> Vec<Snapshot> {
    vec![
        Snapshot { time_ms: 10, cpu_load: 0, active_workers: 0 },
        Snapshot { time_ms: 20, cpu_load: 9_500, active_workers: 7 },
        Snapshot { time_ms: 31, cpu_load: 8_000, active_workers: 8 },
    ]
}

#[test]
fn mean_of_nothing_is_zero() {
    assert_eq!(avg(&vec![]), ratio(0, 1));
}

#[test]
fn mean_is_sum_over_number() {
    assert_eq!(avg(&vec![3, 4, 8]), ratio(15, 3));
    assert_eq!(avg(&vec![u64::MAX, u64::MAX]), ratio(2 * u64::MAX as u128, 2));
}

#[test]
fn greatest_of_nothing_is_zero() {
    assert_eq!(max_or_zero(&vec![]), 0);
    assert_eq!(max_or_zero(&vec![0, 0]), 0);
    assert_eq!(max_or_zero(&vec![3, 9, 4]), 9);
}

#[test]
fn gap_does_not_depend_on_the_order() {
    assert_eq!(ratio(35, 3).gap(&ratio(100, 2)), ratio(230, 6));
    assert_eq!(ratio(100, 2).gap(&ratio(35, 3)), ratio(230, 6));
    assert_eq!(ratio(1, 2).gap(&ratio(2, 4)), ratio(0, 8));
}

#[test]
fn summary_has_the_figures_of_the_run() {
    let s = Summary::of(&some_tasks(), &some_snapshots(), &Config::stressed());
    assert_eq!(s.completed, 5);
    assert_eq!(s.monitor_time_ms, 31);
    assert_eq!(s.total_work_ms, 900);
    assert_eq!(s.avg_wait_ms, ratio(135, 5));
    assert_eq!(s.avg_turnaround_ms, ratio(1035, 5));
    assert_eq!(s.io_completed, 3);
    assert_eq!(s.cpu_completed, 2);
    assert_eq!(s.max_wait_ms, 60);
    assert_eq!(s.avg_cpu_percent, ratio(1_750_000, 30_000));
    assert_eq!(s.avg_active_workers, ratio(15, 3));
    assert_eq!(s.worker_utilization_percent, Some(ratio(1_500, 24)));
    assert_eq!(s.avg_io_wait_ms, ratio(35, 3));
    assert_eq!(s.avg_cpu_wait_ms, ratio(100, 2));
    assert_eq!(s.fairness_gap_ms, ratio(230, 6));
    assert_eq!(s.aged, 2);
    assert_eq!(s.snapshots, 3);
}

#[test]
fn fifo_summary_counts_no_aged_tasks() {
    let s = Summary::of(&some_tasks(), &some_snapshots(), &Config::fifo());
    assert_eq!(s.aged, 0);
}

#[test]
fn summary_of_nothing_is_zero() {
    let s = Summary::of(&vec![], &vec![], &Config::stressed());
    assert_eq!(s.completed, 0);
    assert_eq!(s.monitor_time_ms, 0);
    assert_eq!(s.total_work_ms, 0);
    assert_eq!(s.avg_wait_ms, ratio(0, 1));
    assert_eq!(s.avg_turnaround_ms, ratio(0, 1));
    assert_eq!(s.max_wait_ms, 0);
    assert_eq!(s.avg_cpu_percent.num, 0);
    assert_eq!(s.fairness_gap_ms, ratio(0, 1));
    assert_eq!(s.aged, 0);
    assert_eq!(s.snapshots, 0);
}

#[test]
fn pool_without_workers_has_no_utilization() {
    let cfg = Config { num_workers: 0, ..Config::stressed() };
    assert_eq!(Summary::of(&vec![], &some_snapshots(), &cfg).worker_utilization_percent, None);
}

#[test]
fn kinds_add_up_and_means_stay_below_the_greatest() {
    let s = Summary::of(&some_tasks(), &some_snapshots(), &Config::stressed());
    assert_eq!(s.io_completed + s.cpu_completed, s.completed);
    assert_eq!(s.avg_io_wait_ms.num + s.avg_cpu_wait_ms.num, s.avg_wait_ms.num);
    assert!(s.avg_wait_ms.num <= s.max_wait_ms as u128 * s.avg_wait_ms.den);
    assert!(s.avg_cpu_percent.num <= 100 * s.avg_cpu_percent.den);
}
