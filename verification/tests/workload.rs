use rand::rngs::SmallRng;
use rand::{Rng, SeedableRng};
use task_dispatcher::task::{ExperimentConfig, Policy, Task, TaskKind, WorkloadKind};
use task_dispatcher::workload::{
    arrival_wait_ns, duration_bounds, generate_tasks, interval_bounds, io_chance_pct, is_burst,
    task_from_draws, JitterSource, GENERATOR_JITTER_MS,
};

fn config(workload: WorkloadKind, task_count: usize, base_interval_ms: u64, seed: u64) -> ExperimentConfig {
    ExperimentConfig {
        name: "test",
        workload,
        policy: Policy::Fifo,
        task_count,
        base_interval_ms,
        worker_count: 10,
        seed,
    }
}

/// The tasks as the generator draws them with probabilities written as
/// floating-point numbers, one draw after the other.
fn reference_tasks(config: &ExperimentConfig) -> Vec<(TaskKind, u64, u64)> {
    let mut rng = SmallRng::seed_from_u64(config.seed);
    let mut out = Vec::new();
    for id in 0..config.task_count {
        let p = match config.workload {
            WorkloadKind::Balanced => 0.70,
            WorkloadKind::Stressed => 0.35,
        };
        let kind = if rng.gen_bool(p) { TaskKind::Io } else { TaskKind::Cpu };
        let burst = matches!(config.workload, WorkloadKind::Stressed) && id % 100 < 35;
        let interval: u64 = if burst {
            rng.gen_range(0..=2)
        } else {
            rng.gen_range(config.base_interval_ms.saturating_sub(6)..=config.base_interval_ms + 6)
        };
        let duration: u64 = match (config.workload, kind) {
            (WorkloadKind::Balanced, _) => rng.gen_range(180..=220),
            (WorkloadKind::Stressed, TaskKind::Io) => rng.gen_range(120..=240),
            (WorkloadKind::Stressed, TaskKind::Cpu) => rng.gen_range(240..=380),
        };
        out.push((kind, interval, duration));
    }
    out
}

fn check_against_reference(config: &ExperimentConfig) {
    let tasks = generate_tasks(config).0;
    let reference = reference_tasks(config);
    assert_eq!(tasks.len(), reference.len());
    let mut previous: u128 = 0;
    for (i, (t, (kind, interval, duration))) in tasks.iter().zip(reference.iter()).enumerate() {
        assert_eq!(t.id, i);
        assert_eq!(t.kind, *kind);
        assert_eq!(t.arrival_offset_ms, previous + *interval as u128);
        assert_eq!(t.duration_ms, *duration);
        assert_eq!(t.cpu_cost_pct, kind.cpu_cost_pct());
        previous = t.arrival_offset_ms;
    }
}

#[test]
fn balanced_tasks_match_float_probability_draws() {
    check_against_reference(&config(WorkloadKind::Balanced, 1000, 20, 7));
}

#[test]
fn stressed_tasks_match_float_probability_draws() {
    check_against_reference(&config(WorkloadKind::Stressed, 1000, 12, 77));
}

#[test]
fn same_seed_same_tasks() {
    let c = config(WorkloadKind::Stressed, 300, 12, 77);
    assert_eq!(generate_tasks(&c).0, generate_tasks(&c).0);
}

#[test]
fn generated_tasks_respect_ranges() {
    let c = config(WorkloadKind::Stressed, 500, 3, 5);
    let tasks = generate_tasks(&c).0;
    assert_eq!(tasks.len(), 500);
    let mut previous: u128 = 0;
    for t in &tasks {
        let interval = t.arrival_offset_ms - previous;
        if t.id % 100 < 35 {
            assert!(interval <= 2);
        } else {
            assert!(interval <= 9);
        }
        let (low, high) = duration_bounds(WorkloadKind::Stressed, t.kind);
        assert!(low <= t.duration_ms && t.duration_ms <= high);
        assert!(t.arrival_offset_ms >= previous);
        previous = t.arrival_offset_ms;
    }
}

#[test]
fn no_tasks_when_count_is_zero() {
    assert!(generate_tasks(&config(WorkloadKind::Balanced, 0, 20, 1)).0.is_empty());
}

#[test]
fn huge_base_interval_within_first_burst() {
    let tasks = generate_tasks(&config(WorkloadKind::Stressed, 35, u64::MAX, 1)).0;
    assert_eq!(tasks.len(), 35);
    assert!(tasks[34].arrival_offset_ms <= 70);
}

#[test]
fn draw_parameters() {
    assert_eq!(io_chance_pct(WorkloadKind::Balanced), 70);
    assert_eq!(io_chance_pct(WorkloadKind::Stressed), 35);
    assert!(!is_burst(WorkloadKind::Balanced, 0));
    assert!(is_burst(WorkloadKind::Stressed, 134));
    assert!(!is_burst(WorkloadKind::Stressed, 135));
    assert_eq!(interval_bounds(&config(WorkloadKind::Balanced, 1, 20, 1), 0), (14, 26));
    assert_eq!(interval_bounds(&config(WorkloadKind::Balanced, 1, 4, 1), 0), (0, 10));
    assert_eq!(interval_bounds(&config(WorkloadKind::Stressed, 1, 12, 1), 99), (6, 18));
    assert_eq!(interval_bounds(&config(WorkloadKind::Stressed, 1, 12, 1), 100), (0, 2));
    assert_eq!(duration_bounds(WorkloadKind::Balanced, TaskKind::Cpu), (180, 220));
    assert_eq!(duration_bounds(WorkloadKind::Stressed, TaskKind::Io), (120, 240));
    assert_eq!(duration_bounds(WorkloadKind::Stressed, TaskKind::Cpu), (240, 380));
}

#[test]
fn task_built_from_draws() {
    let t = task_from_draws(4, 100, true, 17, 190);
    assert_eq!(
        t,
        Task { id: 4, arrival_offset_ms: 117, kind: TaskKind::Io, duration_ms: 190, cpu_cost_pct: 10 }
    );
    let t = task_from_draws(5, 117, false, 0, 300);
    assert_eq!(t.kind, TaskKind::Cpu);
    assert_eq!(t.cpu_cost_pct, 40);
    assert_eq!(t.arrival_offset_ms, 117);
}

#[test]
fn jitter_matches_seeded_generator() {
    let mut jitter = JitterSource::new(20);
    let mut reference = SmallRng::seed_from_u64(9999 + 20);
    for _ in 0..200 {
        let j = jitter.next_jitter_ms();
        assert!(j <= GENERATOR_JITTER_MS);
        assert_eq!(j, reference.gen_range(0..=4u64));
    }
}

#[test]
fn arrival_wait() {
    assert_eq!(arrival_wait_ns(5, 1_000_000), 4_000_000);
    assert_eq!(arrival_wait_ns(5, 5_000_000), 0);
    assert_eq!(arrival_wait_ns(5, 9_000_000), 0);
    assert_eq!(arrival_wait_ns(0, 0), 0);
}
