use std::collections::VecDeque;
use task_dispatcher::scheduler::{pop_fifo_task, pop_kind, pop_optimized_task, Dispatcher};
use task_dispatcher::task::{ExperimentConfig, Policy, Task, TaskKind, WorkloadKind};

fn task(id: usize, kind: TaskKind) -> Task {
    Task {
        id,
        arrival_offset_ms: id as u128,
        kind,
        duration_ms: 200,
        cpu_cost_pct: kind.cpu_cost_pct(),
    }
}

fn config(policy: Policy, worker_count: usize) -> ExperimentConfig {
    ExperimentConfig {
        name: "test",
        workload: WorkloadKind::Balanced,
        policy,
        task_count: 10,
        base_interval_ms: 20,
        worker_count,
        seed: 7,
    }
}

fn queue(tasks: &[Task]) -> VecDeque<Task> {
    tasks.iter().copied().collect()
}

#[test]
fn labels_and_costs() {
    assert_eq!(TaskKind::Cpu.label(), "CPU");
    assert_eq!(TaskKind::Io.label(), "IO");
    assert_eq!(Policy::Fifo.label(), "FIFO");
    assert_eq!(Policy::Optimized.label(), "Optimized");
    assert_eq!(WorkloadKind::Balanced.label(), "Balanced");
    assert_eq!(WorkloadKind::Stressed.label(), "Stressed");
    assert_eq!(TaskKind::Cpu.cpu_cost_pct(), 40);
    assert_eq!(TaskKind::Io.cpu_cost_pct(), 10);
}

#[test]
fn fifo_takes_front_when_it_fits() {
    let mut q = queue(&[task(0, TaskKind::Cpu), task(1, TaskKind::Io)]);
    assert_eq!(pop_fifo_task(&mut q, 60), Some(task(0, TaskKind::Cpu)));
    assert_eq!(q, queue(&[task(1, TaskKind::Io)]));
}

#[test]
fn fifo_blocks_behind_front_that_does_not_fit() {
    let mut q = queue(&[task(0, TaskKind::Cpu), task(1, TaskKind::Io)]);
    assert_eq!(pop_fifo_task(&mut q, 61), None);
    assert_eq!(q.len(), 2);
    let mut empty: VecDeque<Task> = VecDeque::new();
    assert_eq!(pop_fifo_task(&mut empty, 0), None);
}

#[test]
fn budget_edge_is_inclusive() {
    let mut q = queue(&[task(0, TaskKind::Io)]);
    assert_eq!(pop_fifo_task(&mut q, 90), Some(task(0, TaskKind::Io)));
    let mut q = queue(&[task(0, TaskKind::Io)]);
    assert_eq!(pop_fifo_task(&mut q, 91), None);
    let mut q = queue(&[task(0, TaskKind::Io)]);
    assert_eq!(pop_fifo_task(&mut q, u64::MAX), None);
}

#[test]
fn pop_kind_touches_only_its_queue() {
    let mut cpu = queue(&[task(0, TaskKind::Cpu)]);
    let mut io = queue(&[task(1, TaskKind::Io)]);
    assert_eq!(pop_kind(TaskKind::Io, &mut cpu, &mut io, 0), Some(task(1, TaskKind::Io)));
    assert_eq!(cpu.len(), 1);
    assert!(io.is_empty());
}

#[test]
fn reserved_worker_takes_cpu_first() {
    let mut cpu = queue(&[task(0, TaskKind::Cpu)]);
    let mut io = queue(&[task(1, TaskKind::Io)]);
    // With ten workers and two reserved, workers 8 and 9 are reserved.
    assert_eq!(pop_optimized_task(8, 10, 2, &mut cpu, &mut io, 0), Some(task(0, TaskKind::Cpu)));
    assert!(cpu.is_empty());
    assert_eq!(io.len(), 1);
}

#[test]
fn other_worker_takes_io_first() {
    let mut cpu = queue(&[task(0, TaskKind::Cpu)]);
    let mut io = queue(&[task(1, TaskKind::Io)]);
    assert_eq!(pop_optimized_task(7, 10, 2, &mut cpu, &mut io, 0), Some(task(1, TaskKind::Io)));
    assert_eq!(cpu.len(), 1);
    assert!(io.is_empty());
    // Every later pick of a non-reserved worker still prefers I/O.
    let mut io = queue(&[task(2, TaskKind::Io)]);
    assert_eq!(pop_optimized_task(0, 10, 2, &mut cpu, &mut io, 0), Some(task(2, TaskKind::Io)));
}

#[test]
fn falls_back_to_other_queue() {
    // The CPU front does not fit at 70%, so the reserved worker takes I/O work.
    let mut cpu = queue(&[task(0, TaskKind::Cpu)]);
    let mut io = queue(&[task(1, TaskKind::Io)]);
    assert_eq!(pop_optimized_task(9, 10, 2, &mut cpu, &mut io, 70), Some(task(1, TaskKind::Io)));
    // An empty I/O queue sends a non-reserved worker to the CPU queue.
    let mut io: VecDeque<Task> = VecDeque::new();
    assert_eq!(pop_optimized_task(0, 10, 2, &mut cpu, &mut io, 0), Some(task(0, TaskKind::Cpu)));
    // Nothing fits: nothing changes.
    let mut cpu = queue(&[task(3, TaskKind::Cpu)]);
    let mut io = queue(&[task(4, TaskKind::Io)]);
    assert_eq!(pop_optimized_task(0, 10, 2, &mut cpu, &mut io, 95), None);
    assert_eq!(cpu.len(), 1);
    assert_eq!(io.len(), 1);
}

#[test]
fn small_pool_is_entirely_reserved() {
    // With fewer workers than reserved slots every worker prefers CPU work.
    let mut cpu = queue(&[task(0, TaskKind::Cpu)]);
    let mut io = queue(&[task(1, TaskKind::Io)]);
    assert_eq!(pop_optimized_task(0, 1, 2, &mut cpu, &mut io, 0), Some(task(0, TaskKind::Cpu)));
}

#[test]
fn fifo_dispatcher_serves_in_arrival_order() {
    let mut d = Dispatcher::new(&config(Policy::Fifo, 2));
    assert_eq!(d.dispatch_next(0), None);
    d.worker_ready(0);
    d.worker_ready(1);
    d.receive_task(task(0, TaskKind::Io));
    d.receive_task(task(1, TaskKind::Cpu));
    assert_eq!(d.queue_lengths(), (2, 0, 0));
    assert_eq!(d.dispatch_next(0), Some((0, task(0, TaskKind::Io))));
    assert_eq!(d.dispatch_next(10), Some((1, task(1, TaskKind::Cpu))));
    assert_eq!(d.dispatch_next(50), None);
    assert!(d.queues_empty());
}

#[test]
fn worker_stays_first_in_line_when_nothing_fits() {
    let mut d = Dispatcher::new(&config(Policy::Fifo, 2));
    d.worker_ready(1);
    d.worker_ready(0);
    d.receive_task(task(0, TaskKind::Cpu));
    assert_eq!(d.dispatch_next(80), None);
    assert_eq!(d.queue_lengths(), (1, 0, 0));
    assert_eq!(d.dispatch_next(60), Some((1, task(0, TaskKind::Cpu))));
}

#[test]
fn optimized_dispatcher_routes_by_kind() {
    let mut d = Dispatcher::new(&config(Policy::Optimized, 10));
    d.receive_task(task(0, TaskKind::Cpu));
    d.receive_task(task(1, TaskKind::Io));
    d.receive_task(task(2, TaskKind::Io));
    assert_eq!(d.queue_lengths(), (0, 1, 2));
    d.worker_ready(9);
    d.worker_ready(3);
    assert_eq!(d.dispatch_next(0), Some((9, task(0, TaskKind::Cpu))));
    assert_eq!(d.dispatch_next(40), Some((3, task(1, TaskKind::Io))));
    assert_eq!(d.queue_lengths(), (0, 0, 1));
}

#[test]
fn dispatch_conserves_tasks() {
    let mut d = Dispatcher::new(&config(Policy::Optimized, 3));
    for id in 0..6 {
        d.receive_task(task(id, if id % 2 == 0 { TaskKind::Cpu } else { TaskKind::Io }));
    }
    d.worker_ready(0);
    d.worker_ready(1);
    d.worker_ready(2);
    let mut handed = Vec::new();
    let mut load = 0;
    while let Some((_w, t)) = d.dispatch_next(load) {
        load += t.cpu_cost_pct;
        handed.push(t.id);
    }
    let (f, c, i) = d.queue_lengths();
    assert_eq!(handed.len() + f + c + i, 6);
    assert!(load <= 100);
}

#[test]
fn finishing_and_waiting_for_tasks() {
    let mut d = Dispatcher::new(&config(Policy::Fifo, 1));
    assert!(d.awaits_tasks());
    assert!(!d.is_finished());
    d.worker_ready(0);
    d.receive_task(task(0, TaskKind::Io));
    d.mark_generator_done();
    assert!(d.awaits_tasks());
    assert!(!d.is_finished());
    assert_eq!(d.dispatch_next(0), Some((0, task(0, TaskKind::Io))));
    assert!(!d.awaits_tasks());
    assert!(!d.is_finished());
    d.worker_ready(0);
    assert!(d.is_finished());
}

#[test]
fn shutdown_reaches_every_worker_once() {
    let mut d = Dispatcher::new(&config(Policy::Optimized, 3));
    d.worker_ready(2);
    d.worker_ready(0);
    d.worker_ready(1);
    d.mark_generator_done();
    assert!(d.is_finished());
    assert_eq!(d.shut_down(), vec![0, 1, 2]);
    d.receive_task(task(0, TaskKind::Io));
    assert_eq!(d.dispatch_next(0), None);
}
