use task_dispatcher::state::{task_timing, CollectorState, MonitorSample, SharedState, TaskRecord};
use task_dispatcher::summary::{divide_duration, summarize_records, summarize_run, summarize_samples};
use task_dispatcher::task::{Task, TaskKind};

fn task(id: usize, kind: TaskKind, duration_ms: u64) -> Task {
    Task { id, arrival_offset_ms: 0, kind, duration_ms, cpu_cost_pct: kind.cpu_cost_pct() }
}

fn record(task_id: usize, kind: TaskKind, wait_ns: u64, turnaround_ns: u64) -> TaskRecord {
    TaskRecord { task_id, worker_id: 0, kind, wait_ns, turnaround_ns, cpu_cost_pct: kind.cpu_cost_pct() }
}

fn sample(queue_len: usize, busy_workers: usize, cpu_load: u64) -> MonitorSample {
    MonitorSample { elapsed_ns: 0, queue_len, cpu_queue_len: 0, io_queue_len: 0, busy_workers, cpu_load }
}

#[test]
fn fresh_state() {
    let s = SharedState::new();
    assert_eq!(s.total_queue_len, 0);
    assert_eq!(s.busy_workers, 0);
    assert_eq!(s.current_cpu_load, 0);
    assert!(!s.done);
}

#[test]
fn completion_undoes_dispatch() {
    let mut s = SharedState::new();
    s.record_dispatch(40);
    s.record_dispatch(10);
    let before = s;
    s.record_dispatch(40);
    assert_eq!(s.current_cpu_load, 90);
    assert_eq!(s.busy_workers, 3);
    s.record_completion(40);
    assert_eq!(s, before);
}

#[test]
fn load_is_capped_and_floored() {
    let mut s = SharedState::new();
    s.record_dispatch(40);
    s.record_dispatch(40);
    s.record_dispatch(40);
    assert_eq!(s.current_cpu_load, 100);
    s.record_dispatch(u64::MAX);
    assert_eq!(s.current_cpu_load, 100);
    let mut s = SharedState::new();
    s.record_completion(10);
    assert_eq!(s.current_cpu_load, 0);
    assert_eq!(s.busy_workers, 0);
}

#[test]
fn queue_lengths_and_sampling() {
    let mut s = SharedState::new();
    s.update_queue_lengths(3, 4, 5);
    assert_eq!((s.total_queue_len, s.cpu_queue_len, s.io_queue_len), (12, 4, 5));
    s.record_dispatch(10);
    let m = s.sample(1234);
    assert_eq!(
        m,
        MonitorSample { elapsed_ns: 1234, queue_len: 12, cpu_queue_len: 4, io_queue_len: 5, busy_workers: 1, cpu_load: 10 }
    );
}

#[test]
fn monitor_stops_only_when_idle_and_done() {
    let mut s = SharedState::new();
    assert!(!s.monitor_may_stop());
    s.mark_done();
    assert!(s.monitor_may_stop());
    s.update_queue_lengths(1, 0, 0);
    assert!(!s.monitor_may_stop());
    s.update_queue_lengths(0, 0, 0);
    s.record_dispatch(10);
    assert!(!s.monitor_may_stop());
    s.record_completion(10);
    assert!(s.monitor_may_stop());
}

#[test]
fn collector_records_completions() {
    let mut c = CollectorState::new(3);
    assert_eq!(c.worker_busy_ms, vec![0, 0, 0]);
    assert!(c.records.is_empty());
    c.record_completion(1, &task(7, TaskKind::Cpu, 250), 5, 9);
    c.record_completion(1, &task(8, TaskKind::Io, 100), 6, 10);
    assert_eq!(c.worker_busy_ms, vec![0, 350, 0]);
    assert_eq!(
        c.records,
        vec![
            TaskRecord { task_id: 7, worker_id: 1, kind: TaskKind::Cpu, wait_ns: 5, turnaround_ns: 9, cpu_cost_pct: 40 },
            TaskRecord { task_id: 8, worker_id: 1, kind: TaskKind::Io, wait_ns: 6, turnaround_ns: 10, cpu_cost_pct: 10 },
        ]
    );
}

#[test]
fn divide_duration_values() {
    assert_eq!(divide_duration(10, 3), 3);
    assert_eq!(divide_duration(9, 3), 3);
    assert_eq!(divide_duration(10, 0), 0);
    assert_eq!(divide_duration(0, 5), 0);
    assert_eq!(divide_duration(u128::MAX, 1), u128::MAX);
    assert_eq!(divide_duration(2, 3), 1);
    assert_eq!(divide_duration(4, 3), 1);
    assert_eq!(divide_duration(5, 2), 3);
    assert_eq!(divide_duration(u128::MAX, 2), u128::MAX / 2 + 1);
}

#[test]
fn record_totals() {
    let records = vec![
        record(0, TaskKind::Cpu, 100, 300),
        record(1, TaskKind::Io, 400, 500),
        record(2, TaskKind::Io, 50, 250),
    ];
    let t = summarize_records(&records);
    assert_eq!(t.total_tasks_completed, 3);
    assert_eq!(t.total_wait_ns, 550);
    assert_eq!(t.total_turnaround_ns, 1050);
    assert_eq!(t.max_wait_ns, 400);
    assert_eq!(t.average_wait_ns, 183);
    assert_eq!(t.average_turnaround_ns, 350);
    assert_eq!(t.cpu_tasks_completed, 1);
    assert_eq!(t.io_tasks_completed, 2);
    assert_eq!(t.cpu_wait_sum_ns, 100);
    assert_eq!(t.io_wait_sum_ns, 450);
    assert_eq!(t.cpu_tasks_completed + t.io_tasks_completed, t.total_tasks_completed);
    assert_eq!(t.cpu_wait_sum_ns + t.io_wait_sum_ns, t.total_wait_ns);
    assert!(t.average_wait_ns <= t.max_wait_ns as u128);
}

#[test]
fn record_totals_of_nothing() {
    let t = summarize_records(&Vec::new());
    assert_eq!(t.total_tasks_completed, 0);
    assert_eq!(t.max_wait_ns, 0);
    assert_eq!(t.average_wait_ns, 0);
    assert_eq!(t.average_turnaround_ns, 0);
}

#[test]
fn large_waits_do_not_overflow() {
    let records = vec![record(0, TaskKind::Cpu, u64::MAX, u64::MAX), record(1, TaskKind::Cpu, u64::MAX, u64::MAX)];
    let t = summarize_records(&records);
    assert_eq!(t.total_wait_ns, 2 * u64::MAX as u128);
    assert_eq!(t.average_wait_ns, u64::MAX as u128);
}

#[test]
fn sample_totals() {
    let samples = vec![sample(3, 2, 50), sample(7, 4, 90), sample(1, 1, 10)];
    let t = summarize_samples(&samples);
    assert_eq!(t.sample_count, 3);
    assert_eq!(t.queue_len_sum, 11);
    assert_eq!(t.busy_workers_sum, 7);
    assert_eq!(t.cpu_load_sum, 150);
    assert_eq!(t.max_queue_len, 7);
    let empty = summarize_samples(&Vec::new());
    assert_eq!((empty.sample_count, empty.max_queue_len, empty.queue_len_sum), (0, 0, 0));
}

#[test]
fn run_totals_combine_both() {
    let mut c = CollectorState::new(1);
    c.record_completion(0, &task(0, TaskKind::Io, 200), 1_000, 2_000);
    let samples = vec![sample(2, 1, 10)];
    let t = summarize_run(&c, &samples);
    assert_eq!(t.records.total_tasks_completed, 1);
    assert_eq!(t.records.average_wait_ns, 1_000);
    assert_eq!(t.samples.max_queue_len, 2);
}

#[test]
fn timing_from_clock_readings() {
    // Due at 2 ms, started at 5 ms, finished at 9 ms.
    assert_eq!(task_timing(2, 5_000_000, 9_000_000), (3_000_000, 7_000_000));
    // Started before it was due: no wait.
    assert_eq!(task_timing(2, 1_000_000, 3_000_000), (0, 1_000_000));
    // Readings too large for a u64 saturate.
    assert_eq!(task_timing(0, u128::MAX, u128::MAX), (u64::MAX, u64::MAX));
}

#[test]
fn finished_task_recorded_with_timing() {
    let mut c = CollectorState::new(2);
    let t = Task { id: 3, arrival_offset_ms: 1, kind: TaskKind::Cpu, duration_ms: 250, cpu_cost_pct: 40 };
    c.record_finished_task(1, &t, 4_000_000, 254_000_000);
    assert_eq!(c.worker_busy_ms, vec![0, 250]);
    assert_eq!(
        c.records,
        vec![TaskRecord { task_id: 3, worker_id: 1, kind: TaskKind::Cpu, wait_ns: 3_000_000, turnaround_ns: 253_000_000, cpu_cost_pct: 40 }]
    );
    assert!(c.records[0].wait_ns <= c.records[0].turnaround_ns);
}

#[test]
fn summary_ignores_record_order() {
    let a = vec![record(0, TaskKind::Cpu, 100, 300), record(1, TaskKind::Io, 400, 500), record(2, TaskKind::Io, 50, 250)];
    let b = vec![a[2], a[0], a[1]];
    assert_eq!(summarize_records(&a), summarize_records(&b));
}
