use task_dispatcher::task::{elapsed_ms, Kind, Task};

fn task(enqueue: Option<u64>, start: Option<u64>, finish: Option<u64>) -> Task {
    Task {
        enqueue_time: enqueue,
        start_time: start,
        finish_time: finish,
        ..Task::new(1, Kind::Io, 1_000, 200, 0)
    }
}

#[test]
fn new_task_has_only_arrived() {
    let t = Task::new(7, Kind::Cpu, 3_500, 200, 5_600_000);
    assert_eq!(t.id, 7);
    assert_eq!(t.kind, Kind::Cpu);
    assert_eq!(t.cpu_cost, 3_500);
    assert_eq!(t.duration_ms, 200);
    assert_eq!(t.arrival_time, 5_600_000);
    assert_eq!((t.enqueue_time, t.start_time, t.finish_time), (None, None, None));
    assert_eq!(t.skip_count, 0);
    assert_eq!(t.arrived_at_ms(), 5);
}

#[test]
fn marks_record_their_instants_only() {
    let mut t = Task::new(1, Kind::Io, 1_000, 200, 3);
    let before = t;
    t.mark_enqueued(4);
    assert_eq!(t, Task { enqueue_time: Some(4), ..before });
    t.mark_finished(9);
    assert_eq!(t, Task { enqueue_time: Some(4), finish_time: Some(9), ..before });
}

#[test]
fn elapsed_time_is_cut_to_whole_milliseconds() {
    assert_eq!(elapsed_ms(0, 999_999), 0);
    assert_eq!(elapsed_ms(0, 1_000_000), 1);
    assert_eq!(elapsed_ms(500_000, 1_499_999), 0);
    assert_eq!(elapsed_ms(500_000, 1_500_000), 1);
    assert_eq!(elapsed_ms(2_000_000, 1_000_000), 0);
}

#[test]
fn wait_runs_from_queueing_to_start() {
    assert_eq!(task(Some(1_000_000), Some(43_500_000), None).wait_ms(), 42);
    assert_eq!(task(None, Some(43_500_000), None).wait_ms(), 0);
    assert_eq!(task(Some(1_000_000), None, Some(9_000_000)).wait_ms(), 0);
    assert_eq!(task(Some(9_000_000), Some(1_000_000), None).wait_ms(), 0);
}

#[test]
fn turnaround_runs_from_queueing_to_finish() {
    assert_eq!(task(Some(1_000_000), Some(2_000_000), Some(243_000_000)).turnaround_ms(), 242);
    assert_eq!(task(Some(1_000_000), Some(2_000_000), None).turnaround_ms(), 0);
    assert_eq!(task(None, None, Some(2_000_000)).turnaround_ms(), 0);
}

#[test]
fn turnaround_covers_wait_and_run() {
    let t = task(Some(1_700_000), Some(12_600_000), Some(212_700_000));
    assert_eq!(t.wait_ms(), 10);
    assert_eq!(t.turnaround_ms(), 211);
    assert!(t.turnaround_ms() >= t.wait_ms() + 200);
}
