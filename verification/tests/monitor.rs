use task_dispatcher::config::Config;
use task_dispatcher::monitor::Monitor;
use task_dispatcher::queue::{QueueState, Snapshot};
use task_dispatcher::task::{Kind, Task};

#[test]
fn monitor_keeps_its_interval() {
    assert_eq!(Monitor::new(Config::fifo().monitor_interval_ms).interval_ms, 10);
}

#[test]
fn snapshots_grow_at_their_end() {
    let monitor = Monitor::new(10);
    let mut snapshots = Vec::new();
    let mut state = QueueState::new();
    monitor.record(state.snapshot(10_500_000), &mut snapshots);
    let first = Snapshot { time_ms: 10, cpu_load: 0, active_workers: 0 };
    assert_eq!(snapshots, vec![first]);
    let cfg = Config::stressed();
    state.enqueue(Task::new(1, Kind::Cpu, 3_500, 200, 0));
    assert!(state.can_step(&cfg));
    state.step(&cfg, 11_000_000);
    monitor.record(state.snapshot(20_600_000), &mut snapshots);
    let second = Snapshot { time_ms: 20, cpu_load: 3_500, active_workers: 1 };
    assert_eq!(snapshots, vec![first, second]);
    assert_eq!(state.active_workers, 1);
    assert_eq!(state.active_cpu_load, 3_500);
    assert!(!state.generation_done);
}

#[test]
fn snapshot_times_are_an_interval_apart() {
    let monitor = Monitor::new(10);
    let state = QueueState::new();
    let mut snapshots = Vec::new();
    for now in [10_999_999, 20_999_999, 31_000_000, 45_000_001] {
        monitor.record(state.snapshot(now), &mut snapshots);
    }
    let times: Vec<u64> = snapshots.iter().map(|s| s.time_ms).collect();
    assert_eq!(times, vec![10, 20, 31, 45]);
    for pair in times.windows(2) {
        assert!(pair[1] >= pair[0] + monitor.interval_ms);
    }
    assert!(times.len() as u64 * monitor.interval_ms <= times[3]);
}
