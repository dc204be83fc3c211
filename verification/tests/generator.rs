use rand::rngs::StdRng;
use rand::{Rng, SeedableRng};
use task_dispatcher::config::Config;
use task_dispatcher::generator::{kind_of_draw, make_task, Generator};
use task_dispatcher::task::{Kind, Task};

/// All tasks of a run, made burst by burst, with the sizes of the bursts.
fn workload(cfg: Config) -> (Vec<Task>, Vec<usize>) {
    let mut generator = Generator::new(cfg);
    let mut tasks = Vec::new();
    let mut bursts = Vec::new();
    while !generator.is_done() {
        let burst = generator.next_burst();
        bursts.push(burst);
        for _ in 0..burst {
            let (rest, task) = generator.next_task(tasks.len() as u64);
            generator = rest;
            tasks.push(task.unwrap());
        }
    }
    assert_eq!(generator.next_burst(), 0);
    assert_eq!(generator.next_task(0).1, None);
    (tasks, bursts)
}

fn kinds(tasks: &[Task]) -> Vec<Kind> {
    tasks.iter().map(|t| t.kind).collect()
}

#[test]
fn draws_decide_the_kind() {
    assert_eq!(kind_of_draw(true), Kind::Io);
    assert_eq!(kind_of_draw(false), Kind::Cpu);
}

#[test]
fn made_task_has_the_profile_of_its_kind() {
    let cfg = Config { io_duration_ms: 150, ..Config::stressed() };
    assert_eq!(make_task(&cfg, 0, Kind::Io, 9), Task::new(1, Kind::Io, 1_000, 150, 9));
    assert_eq!(make_task(&cfg, 41, Kind::Cpu, 9), Task::new(42, Kind::Cpu, 3_500, 200, 9));
}

#[test]
fn kinds_are_seven_in_ten_draws_of_the_seeded_generator() {
    for seed in [42, 0, 7, u64::MAX] {
        let cfg = Config { random_seed: seed, ..Config::stressed() };
        let (tasks, _) = workload(cfg);
        let mut rng = StdRng::seed_from_u64(seed);
        let expected: Vec<Kind> = (0..1000)
            .map(|_| if rng.random_bool(0.70) { Kind::Io } else { Kind::Cpu })
            .collect();
        assert_eq!(kinds(&tasks), expected);
    }
}

#[test]
fn both_kinds_occur() {
    let (tasks, _) = workload(Config::fifo());
    let io = tasks.iter().filter(|t| t.kind == Kind::Io).count();
    assert!(io > 600 && io < 800);
}

#[test]
fn same_seed_gives_the_same_workload_whatever_the_bursts() {
    let (fifo, fifo_bursts) = workload(Config::fifo());
    let (stressed, stressed_bursts) = workload(Config::stressed());
    assert_eq!(fifo, stressed);
    assert_eq!(fifo_bursts, vec![1; 1000]);
    assert_eq!(stressed_bursts, vec![10; 100]);
}

#[test]
fn other_seed_gives_another_workload() {
    let (a, _) = workload(Config::fifo());
    let (b, _) = workload(Config { random_seed: 43, ..Config::fifo() });
    assert_ne!(kinds(&a), kinds(&b));
}

#[test]
fn last_burst_takes_what_is_left() {
    let (tasks, bursts) = workload(Config { num_tasks: 23, ..Config::stressed() });
    assert_eq!(tasks.len(), 23);
    assert_eq!(bursts, vec![10, 10, 3]);
}

#[test]
fn tasks_are_numbered_from_one() {
    let (tasks, _) = workload(Config::stressed());
    let ids: Vec<u32> = tasks.iter().map(|t| t.id).collect();
    let expected: Vec<u32> = (1..=1000).collect();
    assert_eq!(ids, expected);
    assert_eq!(tasks[17].arrival_time, 17);
}

#[test]
fn run_without_tasks_is_done_at_once() {
    let (tasks, bursts) = workload(Config { num_tasks: 0, ..Config::stressed() });
    assert!(tasks.is_empty() && bursts.is_empty());
}
