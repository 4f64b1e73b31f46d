//! The state that the dispatcher, the workers and the monitor share while a
//! run is in progress, and what the workers record as they finish tasks.
//! Locking it is the caller's business; each update here is one step taken
//! under the lock.
use crate::task::{CPU_BUDGET_PCT, Task, TaskKind};
use vstd::prelude::*;

verus! {

/// The CPU load after a task with this share starts: the sum, capped at the budget.
pub open spec fn load_after_start(load: u64, cost: u64) -> u64 {
    if load + cost < CPU_BUDGET_PCT {
        (load + cost) as u64
    } else {
        CPU_BUDGET_PCT
    }
}

/// The CPU load after a task with this share finishes: the difference, never below zero.
pub open spec fn load_after_finish(load: u64, cost: u64) -> u64 {
    if load >= cost {
        (load - cost) as u64
    } else {
        0
    }
}

/// What the run looks like right now.
#[derive(Clone, Copy, Debug, PartialEq, Eq, Structural)]
pub struct SharedState {
    pub total_queue_len: usize,
    pub cpu_queue_len: usize,
    pub io_queue_len: usize,
    pub busy_workers: usize,
    /// The CPU share held by the running tasks, in percent.
    pub current_cpu_load: u64,
    /// The dispatcher has shut the workers down.
    pub done: bool,
}

/// One observation of the run by the monitor.
#[derive(Clone, Copy, Debug, PartialEq, Eq, Structural)]
pub struct MonitorSample {
    /// When the sample was taken, in nanoseconds after the run started.
    pub elapsed_ns: u64,
    pub queue_len: usize,
    pub cpu_queue_len: usize,
    pub io_queue_len: usize,
    pub busy_workers: usize,
    /// The CPU share held by the running tasks, in percent.
    pub cpu_load: u64,
}

/// What a worker records when it finishes a task.
#[derive(Clone, Copy, Debug, PartialEq, Eq, Structural)]
pub struct TaskRecord {
    pub task_id: usize,
    pub worker_id: usize,
    pub kind: TaskKind,
    /// From the task's arrival until a worker started it, in nanoseconds.
    pub wait_ns: u64,
    /// From the task's arrival until it finished, in nanoseconds.
    pub turnaround_ns: u64,
    pub cpu_cost_pct: u64,
}

impl SharedState {
    /// The state after the dispatcher published the lengths of its FIFO, CPU
    /// and I/O queues.
    pub open spec fn with_queue_lengths(self, fifo_len: usize, cpu_len: usize, io_len: usize) -> SharedState {
        SharedState {
            total_queue_len: (fifo_len + cpu_len + io_len) as usize,
            cpu_queue_len: cpu_len,
            io_queue_len: io_len,
            ..self
        }
    }

    /// The state after a task with this CPU share was handed to a worker.
    pub open spec fn after_dispatch(self, cpu_cost_pct: u64) -> SharedState {
        SharedState {
            busy_workers: (self.busy_workers + 1) as usize,
            current_cpu_load: load_after_start(self.current_cpu_load, cpu_cost_pct),
            ..self
        }
    }

    /// The state after a task with this CPU share finished.
    pub open spec fn after_completion(self, cpu_cost_pct: u64) -> SharedState {
        SharedState {
            busy_workers: if self.busy_workers > 0 {
                (self.busy_workers - 1) as usize
            } else {
                0
            },
            current_cpu_load: load_after_finish(self.current_cpu_load, cpu_cost_pct),
            ..self
        }
    }

    /// The state before anything has happened.
    pub fn new() -> (s: Self)
        ensures
            s == (SharedState {
                total_queue_len: 0,
                cpu_queue_len: 0,
                io_queue_len: 0,
                busy_workers: 0,
                current_cpu_load: 0,
                done: false,
            }),
    {
        SharedState {
            total_queue_len: 0,
            cpu_queue_len: 0,
            io_queue_len: 0,
            busy_workers: 0,
            current_cpu_load: 0,
            done: false,
        }
    }

    /// Publishes the lengths of the dispatcher's FIFO, CPU and I/O queues.
    pub fn update_queue_lengths(&mut self, fifo_len: usize, cpu_len: usize, io_len: usize)
        requires
            fifo_len + cpu_len + io_len <= usize::MAX,
        ensures
            *final(self) == old(self).with_queue_lengths(fifo_len, cpu_len, io_len),
    {
        self.cpu_queue_len = cpu_len;
        self.io_queue_len = io_len;
        self.total_queue_len = fifo_len + cpu_len + io_len;
    }

    /// A task with this CPU share was handed to a worker: one more worker is
    /// busy and the load grows by the share, capped at the budget.
    pub fn record_dispatch(&mut self, cpu_cost_pct: u64)
        requires
            old(self).busy_workers < usize::MAX,
        ensures
            *final(self) == old(self).after_dispatch(cpu_cost_pct),
    {
        self.busy_workers = self.busy_workers + 1;
        let sum = self.current_cpu_load.saturating_add(cpu_cost_pct);
        self.current_cpu_load = if sum < CPU_BUDGET_PCT {
            sum
        } else {
            CPU_BUDGET_PCT
        };
    }

    /// A task with this CPU share finished: one worker fewer is busy (never
    /// fewer than none) and the load shrinks by the share (never below zero).
    pub fn record_completion(&mut self, cpu_cost_pct: u64)
        ensures
            *final(self) == old(self).after_completion(cpu_cost_pct),
    {
        self.busy_workers = self.busy_workers.saturating_sub(1);
        self.current_cpu_load = self.current_cpu_load.saturating_sub(cpu_cost_pct);
    }

    /// The dispatcher has shut the workers down.
    pub fn mark_done(&mut self)
        ensures
            *final(self) == (SharedState { done: true, ..*old(self) }),
    {
        self.done = true;
    }

    /// What the monitor records of the state at `elapsed_ns` after the start.
    pub fn sample(&self, elapsed_ns: u64) -> (m: MonitorSample)
        ensures
            m == (MonitorSample {
                elapsed_ns,
                queue_len: self.total_queue_len,
                cpu_queue_len: self.cpu_queue_len,
                io_queue_len: self.io_queue_len,
                busy_workers: self.busy_workers,
                cpu_load: self.current_cpu_load,
            }),
    {
        MonitorSample {
            elapsed_ns,
            queue_len: self.total_queue_len,
            cpu_queue_len: self.cpu_queue_len,
            io_queue_len: self.io_queue_len,
            busy_workers: self.busy_workers,
            cpu_load: self.current_cpu_load,
        }
    }

    /// Whether the monitor may stop: the workers are shut down, nothing is
    /// queued and no worker is busy.
    pub fn monitor_may_stop(&self) -> (b: bool)
        ensures
            b == (self.done && self.total_queue_len == 0 && self.busy_workers == 0),
    {
        self.done && self.total_queue_len == 0 && self.busy_workers == 0
    }
}

/// What the workers have recorded: how long each was busy, in milliseconds,
/// and one record per finished task, in the order they finished.
pub struct CollectorState {
    pub worker_busy_ms: Vec<u128>,
    pub records: Vec<TaskRecord>,
}

/// The record of a finished task.
pub open spec fn record_of(
    task: Task,
    worker_id: usize,
    wait_ns: u64,
    turnaround_ns: u64,
) -> TaskRecord {
    TaskRecord {
        task_id: task.id,
        worker_id,
        kind: task.kind,
        wait_ns,
        turnaround_ns,
        cpu_cost_pct: task.cpu_cost_pct,
    }
}

/// The time, in nanoseconds, from the moment `origin_ns` to the reading
/// `reading_ns`, both measured from the start of the run; none when the
/// reading is not later.
pub open spec fn time_since(reading_ns: int, origin_ns: int) -> int {
    if reading_ns > origin_ns {
        reading_ns - origin_ns
    } else {
        0
    }
}

/// A duration in nanoseconds as a `u64`, saturating.
pub open spec fn saturate_u64(ns: int) -> u64 {
    if ns <= u64::MAX {
        ns as u64
    } else {
        u64::MAX
    }
}

/// The wait and turnaround of a task due `arrival_offset_ms` after the start
/// of the run, started at the clock reading `started_ns` and finished at
/// `finished_ns`, both in nanoseconds after the start.
pub open spec fn timing_of(arrival_offset_ms: u128, started_ns: u128, finished_ns: u128) -> (u64, u64) {
    let arrival_ns = arrival_offset_ms * 1_000_000;
    (
        saturate_u64(time_since(started_ns as int, arrival_ns)),
        saturate_u64(time_since(finished_ns as int, arrival_ns)),
    )
}

/// The wait and turnaround, in nanoseconds, of a task due
/// `arrival_offset_ms` after the start of the run that a worker started at
/// the clock reading `started_ns` and finished at `finished_ns`, both in
/// nanoseconds after the start: each is the time since the task was due
/// (none if it was not yet due), saturating at `u64::MAX`. A task never
/// finishes sooner after its arrival than it started.
pub fn task_timing(arrival_offset_ms: u128, started_ns: u128, finished_ns: u128) -> (r: (u64, u64))
    requires
        arrival_offset_ms * 1_000_000 <= u128::MAX,
    ensures
        r == timing_of(arrival_offset_ms, started_ns, finished_ns),
        started_ns <= finished_ns ==> r.0 <= r.1,
{
    let arrival_ns = arrival_offset_ms * 1_000_000;
    let wait = if started_ns > arrival_ns {
        started_ns - arrival_ns
    } else {
        0
    };
    let turnaround = if finished_ns > arrival_ns {
        finished_ns - arrival_ns
    } else {
        0
    };
    let wait_ns = if wait <= u64::MAX as u128 {
        wait as u64
    } else {
        u64::MAX
    };
    let turnaround_ns = if turnaround <= u64::MAX as u128 {
        turnaround as u64
    } else {
        u64::MAX
    };
    (wait_ns, turnaround_ns)
}

impl CollectorState {
    /// Nothing recorded yet for a pool of this many workers.
    pub fn new(worker_count: usize) -> (c: Self)
        ensures
            c.worker_busy_ms@ == Seq::new(worker_count as nat, |_i: int| 0u128),
            c.records@ == Seq::<TaskRecord>::empty(),
    {
        let mut worker_busy_ms: Vec<u128> = Vec::new();
        let mut i: usize = 0;
        while i < worker_count
            invariant
                i <= worker_count,
                worker_busy_ms@ == Seq::new(i as nat, |_i: int| 0u128),
            decreases worker_count - i,
        {
            worker_busy_ms.push(0);
            i = i + 1;
            proof {
                assert(worker_busy_ms@ =~= Seq::new(i as nat, |_i: int| 0u128));
            }
        }
        CollectorState { worker_busy_ms, records: Vec::new() }
    }

    /// The worker finished the task, which waited `wait_ns` before it started
    /// and `turnaround_ns` before it finished: the worker was busy for the
    /// task's duration, and the task's record is appended.
    pub fn record_completion(
        &mut self,
        worker_id: usize,
        task: &Task,
        wait_ns: u64,
        turnaround_ns: u64,
    )
        requires
            worker_id < old(self).worker_busy_ms.len(),
            old(self).worker_busy_ms[worker_id as int] + task.duration_ms <= u128::MAX,
        ensures
            final(self).worker_busy_ms@ == old(self).worker_busy_ms@.update(
                worker_id as int,
                (old(self).worker_busy_ms[worker_id as int] + task.duration_ms) as u128,
            ),
            final(self).records@ == old(self).records@.push(
                record_of(*task, worker_id, wait_ns, turnaround_ns),
            ),
    {
        let busy = self.worker_busy_ms[worker_id] + task.duration_ms as u128;
        self.worker_busy_ms.set(worker_id, busy);
        self.records.push(
            TaskRecord {
                task_id: task.id,
                worker_id,
                kind: task.kind,
                wait_ns,
                turnaround_ns,
                cpu_cost_pct: task.cpu_cost_pct,
            },
        );
    }

    /// The worker finished the task, having started it at the clock reading
    /// `started_ns` and finished it at `finished_ns`, both in nanoseconds
    /// after the start of the run: the worker was busy for the task's
    /// duration, and the task's record, with the wait and turnaround of
    /// `task_timing`, is appended. When the readings are in order, the
    /// recorded turnaround is never below the recorded wait.
    pub fn record_finished_task(
        &mut self,
        worker_id: usize,
        task: &Task,
        started_ns: u128,
        finished_ns: u128,
    )
        requires
            worker_id < old(self).worker_busy_ms.len(),
            old(self).worker_busy_ms[worker_id as int] + task.duration_ms <= u128::MAX,
            task.arrival_offset_ms * 1_000_000 <= u128::MAX,
        ensures
            final(self).worker_busy_ms@ == old(self).worker_busy_ms@.update(
                worker_id as int,
                (old(self).worker_busy_ms[worker_id as int] + task.duration_ms) as u128,
            ),
            final(self).records@ == old(self).records@.push(
                record_of(
                    *task,
                    worker_id,
                    timing_of(task.arrival_offset_ms, started_ns, finished_ns).0,
                    timing_of(task.arrival_offset_ms, started_ns, finished_ns).1,
                ),
            ),
            started_ns <= finished_ns ==> final(self).records@.last().wait_ns
                <= final(self).records@.last().turnaround_ns,
    {
        let (wait_ns, turnaround_ns) = task_timing(task.arrival_offset_ms, started_ns, finished_ns);
        self.record_completion(worker_id, task, wait_ns, turnaround_ns);
    }
}

} // verus!
