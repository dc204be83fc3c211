use task_dispatcher::config::{Config, Policy, CPU_BUDGET};
use task_dispatcher::queue::{QueueState, Snapshot, Step, Wake, FIFO_POLL_MS};
use task_dispatcher::task::{Kind, Task, NANOS_PER_MILLI};

fn io(id: u32) -> Task {
    Task::new(id, Kind::Io, 1_000, 200, 0)
}

fn cpu(id: u32) -> Task {
    Task::new(id, Kind::Cpu, 3_500, 200, 0)
}

fn skipped(task: Task, skip_count: u32) -> Task {
    Task { skip_count, ..task }
}

fn queued(tasks: &[Task]) -> QueueState {
    let mut state = QueueState::new();
    for task in tasks {
        assert_eq!(state.enqueue(*task), Wake::All);
    }
    state
}

fn ask(state: &mut QueueState, cfg: &Config, now: u64) -> Step {
    assert!(state.can_step(cfg));
    state.step(cfg, now)
}

/// The number of the task that the next step runs, if it runs one.
fn run_next(state: &mut QueueState, cfg: &Config) -> Option<u32> {
    match ask(state, cfg, 0) {
        Step::Run { task, .. } => Some(task.id),
        _ => None,
    }
}

fn ids(state: &QueueState) -> Vec<u32> {
    state.queue.iter().map(|t| t.id).collect()
}

fn skips(state: &QueueState) -> Vec<u32> {
    state.queue.iter().map(|t| t.skip_count).collect()
}

#[test]
fn configurations_have_the_documented_values() {
    let fifo = Config::fifo();
    assert_eq!(fifo.num_tasks, 1000);
    assert_eq!(fifo.arrival_interval_ms, 20);
    assert_eq!(fifo.burst_size, 1);
    assert_eq!(fifo.num_workers, 8);
    assert_eq!(fifo.monitor_interval_ms, 10);
    assert_eq!(fifo.random_seed, 42);
    assert_eq!(fifo.policy, Policy::Fifo);
    assert_eq!(fifo.task_for_kind(Kind::Io), (1_000, 200));
    assert_eq!(fifo.task_for_kind(Kind::Cpu), (3_500, 200));
    let stressed = Config::stressed();
    assert_eq!(stressed.num_tasks, 1000);
    assert_eq!(stressed.arrival_interval_ms, 200);
    assert_eq!(stressed.burst_size, 10);
    assert_eq!(stressed.num_workers, 8);
    assert_eq!(stressed.policy, Policy::BudgetAware { aging_threshold: 20 });
    assert_eq!(stressed.task_for_kind(Kind::Cpu), (3_500, 200));
    assert_eq!(CPU_BUDGET, 10_000);
    let same_rate = stressed.burst_size as u64 * fifo.arrival_interval_ms;
    assert_eq!(same_rate, stressed.arrival_interval_ms);
}

#[test]
fn new_queue_is_empty_and_open() {
    let state = QueueState::new();
    assert_eq!(state.queue.len(), 0);
    assert_eq!(state.active_workers, 0);
    assert_eq!(state.active_cpu_load, 0);
    assert!(!state.generation_done);
}

#[test]
fn fifo_runs_in_arrival_order() {
    let cfg = Config::fifo();
    let mut state = queued(&[io(1), cpu(2), io(3), cpu(4)]);
    let mut started = Vec::new();
    while let Some(id) = run_next(&mut state, &cfg) {
        started.push(id);
    }
    assert_eq!(started, vec![1, 2, 3, 4]);
    assert_eq!(state.active_cpu_load, 9_000);
    assert_eq!(state.active_workers, 4);
}

#[test]
fn fifo_front_that_does_not_fit_blocks_the_rest() {
    let cfg = Config::fifo();
    let mut state = queued(&[cpu(1), cpu(2), cpu(3), io(4)]);
    assert_eq!(run_next(&mut state, &cfg), Some(1));
    assert_eq!(run_next(&mut state, &cfg), Some(2));
    assert_eq!(ask(&mut state, &cfg, 0), Step::Wait { timeout_ms: Some(FIFO_POLL_MS) });
    assert_eq!(ids(&state), vec![3, 4]);
    assert_eq!(skips(&state), vec![0, 0]);
}

#[test]
fn fifo_uses_the_budget_to_the_last_unit() {
    let cfg = Config::fifo();
    let mut state = queued(&[cpu(1), cpu(2), io(3), io(4), io(5), io(6)]);
    for id in 1..=5 {
        assert_eq!(run_next(&mut state, &cfg), Some(id));
    }
    assert_eq!(state.active_cpu_load, CPU_BUDGET);
    assert_eq!(run_next(&mut state, &cfg), None);
}

#[test]
fn fifo_wakes_nobody_on_a_run_and_everybody_on_a_finish() {
    let cfg = Config::fifo();
    let mut state = queued(&[io(1), io(2)]);
    let task = match ask(&mut state, &cfg, 7) {
        Step::Run { task, wake } => {
            assert_eq!(wake, Wake::Nobody);
            task
        }
        other => panic!("{:?}", other),
    };
    assert_eq!(task.start_time, Some(7));
    assert!(state.can_release(&task));
    assert_eq!(state.release(&task, cfg.policy), Wake::All);
}

#[test]
fn fifo_worker_ends_while_others_still_run() {
    let cfg = Config::fifo();
    let mut state = queued(&[io(1)]);
    assert_eq!(state.close(), Wake::All);
    assert_eq!(run_next(&mut state, &cfg), Some(1));
    assert_eq!(state.active_workers, 1);
    assert_eq!(ask(&mut state, &cfg, 0), Step::Exit);
}

#[test]
fn empty_open_queue_makes_workers_wait() {
    let mut state = QueueState::new();
    assert_eq!(ask(&mut state, &Config::fifo(), 0), Step::Wait { timeout_ms: Some(5) });
    assert_eq!(ask(&mut state, &Config::stressed(), 0), Step::Wait { timeout_ms: None });
}

#[test]
fn no_more_tasks_run_than_there_are_workers() {
    for cfg in [Config::fifo(), Config::stressed()] {
        let tasks: Vec<Task> = (1..=10).map(io).collect();
        let mut state = queued(&tasks);
        for id in 1..=8 {
            assert_eq!(run_next(&mut state, &cfg), Some(id));
        }
        assert_eq!(state.active_cpu_load, 8_000);
        assert_eq!(run_next(&mut state, &cfg), None);
        assert_eq!(state.active_workers, 8);
    }
}

#[test]
fn cpu_task_is_preferred_while_the_budget_has_room() {
    let cfg = Config::stressed();
    let mut state = queued(&[io(1), io(2), cpu(3), io(4)]);
    assert_eq!(run_next(&mut state, &cfg), Some(3));
    assert_eq!(ids(&state), vec![1, 2, 4]);
    assert_eq!(skips(&state), vec![1, 1, 0]);
}

#[test]
fn six_io_and_one_cpu_fill_ninety_five_percent() {
    let cfg = Config::stressed();
    let mut state = queued(&[io(1), io(2), io(3), io(4), io(5), io(6), cpu(7), io(8)]);
    for _ in 0..7 {
        assert!(run_next(&mut state, &cfg).is_some());
    }
    assert_eq!(state.active_cpu_load, 9_500);
    assert_eq!(run_next(&mut state, &cfg), None);
}

#[test]
fn io_task_is_preferred_when_the_budget_is_tight() {
    let cfg = Config::stressed();
    let mut state = queued(&[cpu(1), cpu(2), cpu(3), io(4)]);
    assert_eq!(run_next(&mut state, &cfg), Some(1));
    assert_eq!(run_next(&mut state, &cfg), Some(2));
    assert_eq!(run_next(&mut state, &cfg), Some(4));
    assert_eq!(ids(&state), vec![3]);
    assert_eq!(skips(&state), vec![1]);
}

#[test]
fn room_exactly_for_a_cpu_task_is_enough() {
    let cfg = Config::stressed();
    let mut state = queued(&[io(1), cpu(2)]);
    state.active_cpu_load = 6_500;
    assert_eq!(run_next(&mut state, &cfg), Some(2));
    let mut state = queued(&[io(1), cpu(2)]);
    state.active_cpu_load = 6_501;
    assert_eq!(run_next(&mut state, &cfg), Some(1));
}

#[test]
fn any_task_that_fits_is_the_last_resort() {
    let cfg = Config::stressed();
    let small_cpu = Task::new(2, Kind::Cpu, 500, 200, 0);
    let mut state = queued(&[cpu(1), small_cpu]);
    state.active_cpu_load = 9_000;
    assert_eq!(run_next(&mut state, &cfg), Some(2));
}

#[test]
fn load_above_the_budget_lets_nothing_run() {
    for cfg in [Config::fifo(), Config::stressed()] {
        let mut state = queued(&[Task::new(1, Kind::Io, 0, 200, 0)]);
        state.active_cpu_load = CPU_BUDGET + 1;
        assert_eq!(run_next(&mut state, &cfg), None);
        state.active_cpu_load = CPU_BUDGET;
        assert_eq!(run_next(&mut state, &cfg), Some(1));
    }
}

#[test]
fn aged_task_goes_first() {
    let cfg = Config::stressed();
    let mut state = queued(&[cpu(1), skipped(io(2), 20), cpu(3)]);
    assert_eq!(run_next(&mut state, &cfg), Some(2));
    assert_eq!(skips(&state), vec![1, 0]);
    let mut state = queued(&[cpu(1), skipped(io(2), 19), cpu(3)]);
    assert_eq!(run_next(&mut state, &cfg), Some(1));
}

#[test]
fn aged_task_that_does_not_fit_holds_the_others_back() {
    let cfg = Config::stressed();
    let mut state = queued(&[skipped(cpu(1), 20), io(2)]);
    state.active_cpu_load = 7_000;
    assert_eq!(ask(&mut state, &cfg, 0), Step::Wait { timeout_ms: None });
    assert_eq!(ids(&state), vec![1, 2]);
    assert_eq!(skips(&state), vec![20, 0]);
}

#[test]
fn aged_task_is_overtaken_only_by_aged_tasks_behind_it() {
    let cfg = Config::stressed();
    let mut state = queued(&[skipped(cpu(1), 20), io(2), skipped(io(3), 25), io(4)]);
    state.active_cpu_load = 7_000;
    assert_eq!(run_next(&mut state, &cfg), Some(3));
    assert_eq!(skips(&state), vec![21, 1, 0]);
    assert_eq!(run_next(&mut state, &cfg), None);
    state.active_cpu_load = 6_500;
    assert_eq!(run_next(&mut state, &cfg), Some(1));
    assert_eq!(run_next(&mut state, &cfg), None);
    state.active_cpu_load = 6_500;
    assert_eq!(run_next(&mut state, &cfg), Some(2));
}

#[test]
fn skips_count_overtakers() {
    let cfg = Config::stressed();
    let mut state = queued(&[io(1), cpu(2), cpu(3)]);
    assert_eq!(run_next(&mut state, &cfg), Some(2));
    assert_eq!(skips(&state), vec![1, 0]);
    assert_eq!(run_next(&mut state, &cfg), Some(3));
    assert_eq!(skips(&state), vec![2]);
}

#[test]
fn idle_pool_runs_an_aged_task_at_once() {
    let cfg = Config::stressed();
    let mut state = queued(&[io(1), skipped(cpu(2), 400)]);
    assert_eq!(run_next(&mut state, &cfg), Some(2));
}

#[test]
fn budget_aware_run_wakes_one_while_tasks_are_left() {
    let cfg = Config::stressed();
    let mut state = queued(&[io(1), io(2)]);
    assert_eq!(
        ask(&mut state, &cfg, 3),
        Step::Run { task: Task { start_time: Some(3), ..io(1) }, wake: Wake::One }
    );
    assert_eq!(
        ask(&mut state, &cfg, 4),
        Step::Run { task: Task { start_time: Some(4), ..io(2) }, wake: Wake::Nobody }
    );
}

#[test]
fn budget_aware_finish_wakes_all_only_at_the_end() {
    let cfg = Config::stressed();
    let mut state = queued(&[io(1), io(2)]);
    run_next(&mut state, &cfg);
    assert_eq!(state.release(&io(1), cfg.policy), Wake::One);
    run_next(&mut state, &cfg);
    assert_eq!(state.close(), Wake::All);
    assert_eq!(ask(&mut state, &cfg, 0), Step::Wait { timeout_ms: None });
    assert_eq!(state.release(&io(2), cfg.policy), Wake::All);
    assert_eq!(ask(&mut state, &cfg, 0), Step::Exit);
    assert_eq!(ask(&mut state, &cfg, 0), Step::Exit);
}

#[test]
fn release_gives_back_what_dispatch_took() {
    let cfg = Config::stressed();
    let mut state = queued(&[cpu(1)]);
    state.active_cpu_load = 1_234;
    state.active_workers = 2;
    run_next(&mut state, &cfg);
    assert_eq!((state.active_workers, state.active_cpu_load), (3, 4_734));
    state.release(&cpu(1), cfg.policy);
    assert_eq!((state.active_workers, state.active_cpu_load), (2, 1_234));
}

#[test]
fn release_needs_a_running_task() {
    let mut state = QueueState::new();
    assert!(!state.can_release(&io(1)));
    state.active_workers = 1;
    assert!(!state.can_release(&io(1)));
    state.active_cpu_load = 1_000;
    assert!(state.can_release(&io(1)));
    assert!(!state.can_release(&cpu(1)));
}

#[test]
fn full_skip_count_is_noticed_before_it_overflows() {
    let cfg = Config { policy: Policy::BudgetAware { aging_threshold: 1 }, ..Config::stressed() };
    let mut state = queued(&[skipped(cpu(1), u32::MAX), skipped(io(2), 1)]);
    state.active_cpu_load = 7_000;
    assert!(!state.can_step(&cfg));
    state.active_cpu_load = 0;
    assert!(state.can_step(&cfg));
    assert_eq!(run_next(&mut state, &cfg), Some(1));
}

#[test]
fn select_names_the_place_without_changing_the_queue() {
    let state = queued(&[io(1), cpu(2)]);
    assert_eq!(state.select(&Config::stressed()), Some(1));
    assert_eq!(state.select(&Config::fifo()), Some(0));
    assert_eq!(QueueState::new().select(&Config::fifo()), None);
    assert_eq!(ids(&state), vec![1, 2]);
}

#[test]
fn snapshot_shows_load_workers_and_time() {
    let cfg = Config::stressed();
    let mut state = queued(&[cpu(1), io(2)]);
    run_next(&mut state, &cfg);
    run_next(&mut state, &cfg);
    assert_eq!(
        state.snapshot(12_999_999),
        Snapshot { time_ms: 12, cpu_load: 4_500, active_workers: 2 }
    );
}

#[test]
fn every_task_is_done_when_the_workers_end() {
    for cfg in [Config::fifo(), Config::stressed()] {
        let tasks: Vec<Task> =
            (1..=200).map(|id| if id % 3 == 0 { cpu(id) } else { io(id) }).collect();
        let mut state = queued(&tasks);
        state.close();
        let mut running: Vec<Task> = Vec::new();
        let mut done: Vec<u32> = Vec::new();
        let mut now: u64 = 0;
        loop {
            now += 1;
            match ask(&mut state, &cfg, now) {
                Step::Exit => break,
                Step::Run { task, .. } => running.push(task),
                Step::Wait { .. } => {
                    let task = running.remove(0);
                    state.release(&task, cfg.policy);
                    done.push(task.id);
                }
            }
            assert!(state.active_cpu_load <= CPU_BUDGET);
            assert!(state.active_workers <= cfg.num_workers);
            assert_eq!(state.active_workers, running.len());
            let load: u32 = running.iter().map(|t| t.cpu_cost).sum();
            assert_eq!(state.active_cpu_load, load);
            assert_eq!(state.queue.len() + running.len() + done.len(), 200);
        }
        done.extend(running.iter().map(|t| t.id));
        done.sort();
        let all: Vec<u32> = (1..=200).collect();
        assert_eq!(done, all);
    }
}

#[test]
fn only_a_close_closes_the_queue() {
    for cfg in [Config::fifo(), Config::stressed()] {
        let mut state = queued(&[io(1), cpu(2)]);
        assert!(!state.generation_done);
        let task = match ask(&mut state, &cfg, 0) {
            Step::Run { task, .. } => task,
            other => panic!("{:?}", other),
        };
        assert!(!state.generation_done);
        assert!(state.can_release(&task));
        state.release(&task, cfg.policy);
        assert!(!state.generation_done);
        assert_eq!(state.close(), Wake::All);
        assert!(state.generation_done);
    }
}

#[test]
fn closed_queue_stays_closed_until_all_tasks_are_done() {
    for cfg in [Config::fifo(), Config::stressed()] {
        let mut state = QueueState::new();
        let mut done = Vec::new();
        for task in [io(1), cpu(2), io(3)] {
            state.enqueue(task);
        }
        state.close();
        assert_eq!(ids(&state), vec![1, 2, 3]);
        for left in [2, 1, 0] {
            let task = match ask(&mut state, &cfg, 0) {
                Step::Run { task, .. } => task,
                other => panic!("{:?}", other),
            };
            assert!(state.generation_done);
            assert_eq!(state.queue.len(), left);
            assert!(state.can_release(&task));
            state.release(&task, cfg.policy);
            assert!(state.generation_done);
            assert_eq!(state.queue.len(), left);
            done.push(task.id);
        }
        assert_eq!(ask(&mut state, &cfg, 0), Step::Exit);
        assert!(state.generation_done);
        done.sort();
        assert_eq!(done, vec![1, 2, 3]);
    }
}

#[test]
fn finished_tasks_ran_for_their_duration() {
    for cfg in [Config::fifo(), Config::stressed()] {
        let mut state = queued(&[io(1), cpu(2)]);
        state.close();
        let mut done = Vec::new();
        for start in [1_000_000, 2_000_000] {
            match ask(&mut state, &cfg, start) {
                Step::Run { mut task, .. } => {
                    assert_eq!(task.start_time, Some(start));
                    assert_eq!(task.finish_time, None);
                    task.mark_finished(start + task.duration_ms * NANOS_PER_MILLI);
                    done.push(task);
                }
                other => panic!("{:?}", other),
            }
        }
        for task in &done {
            assert!(state.can_release(task));
            state.release(task, cfg.policy);
            let ran = task.finish_time.unwrap() - task.start_time.unwrap();
            assert_eq!(ran, 200_000_000);
        }
        assert_eq!(done.iter().map(|t| t.cpu_cost).sum::<u32>(), 4_500);
        for _ in 0..cfg.num_workers {
            assert_eq!(ask(&mut state, &cfg, 0), Step::Exit);
        }
        assert_eq!(state.queue.len(), 0);
        assert_eq!(state.active_workers, 0);
        assert_eq!(state.active_cpu_load, 0);
    }
}

#[test]
fn fresh_task_leaves_within_the_bound_on_starvation() {
    // The CPU task at the front never fits while small tasks keep coming, until
    // it is aged and blocks them.
    let threshold = 3;
    let cfg = Config { policy: Policy::BudgetAware { aging_threshold: threshold }, ..Config::stressed() };
    let mut state = queued(&[cpu(100)]);
    state.active_workers = 1;
    state.active_cpu_load = 7_000;
    let mut dispatches = 0;
    let mut next = 1;
    let mut longest = 1;
    loop {
        state.enqueue(io(next));
        next += 1;
        longest = longest.max(state.queue.len());
        match ask(&mut state, &cfg, 0) {
            Step::Run { task, .. } if task.id == 100 => {
                assert_eq!(task.skip_count, threshold);
                break;
            }
            Step::Run { task, .. } => {
                dispatches += 1;
                assert_eq!(state.queue[0].skip_count as usize, dispatches);
                assert!(state.can_release(&task));
                state.release(&task, cfg.policy);
            }
            Step::Wait { .. } => {
                state.active_workers = 0;
                state.active_cpu_load = 0;
            }
            Step::Exit => panic!("tasks are queued"),
        }
    }
    assert_eq!(dispatches, 3);
    assert!(dispatches < threshold as usize + longest);
}
