//! The scheduling policies and the dispatcher's decision state machine.
//!
//! The dispatcher holds the ready queues and the queue of idle workers. The
//! loop that feeds it (workers reporting in, tasks arriving, the generator
//! finishing) and that sends the chosen tasks to workers runs outside; each
//! of its decisions is one call here.
use crate::task::{CPU_BUDGET_PCT, ExperimentConfig, Policy, Task, TaskKind};
use std::collections::VecDeque;
use vstd::prelude::*;

verus! {

/// The number of workers at the end of the pool that the optimized policy
/// reserves for CPU work first.
pub const OPTIMIZED_CPU_RESERVED_WORKERS: usize = 2;

/// A task with this CPU share fits in what the running tasks leave of the budget.
pub open spec fn fits_budget(load: int, cost: int) -> bool {
    load + cost <= CPU_BUDGET_PCT as int
}

/// The queue has a front task and it fits in the budget.
pub open spec fn front_fits(queue: Seq<Task>, load: int) -> bool {
    queue.len() > 0 && fits_budget(load, queue[0].cpu_cost_pct as int)
}

/// What taking the front of the queue yields: the front task when it fits.
pub open spec fn front_taken(queue: Seq<Task>, load: int) -> Option<Task> {
    if front_fits(queue, load) {
        Some(queue[0])
    } else {
        None
    }
}

/// The queue after its front was taken, when it fits; unchanged otherwise.
pub open spec fn after_front_taken(queue: Seq<Task>, load: int) -> Seq<Task> {
    if front_fits(queue, load) {
        queue.drop_first()
    } else {
        queue
    }
}

/// Whether the worker is one of the last `reserved` of the pool.
pub open spec fn is_cpu_reserved(worker_id: usize, worker_count: usize, reserved: usize) -> bool {
    worker_id >= (if worker_count >= reserved {
        worker_count - reserved
    } else {
        0
    })
}

pub open spec fn other_kind(kind: TaskKind) -> TaskKind {
    match kind {
        TaskKind::Cpu => TaskKind::Io,
        TaskKind::Io => TaskKind::Cpu,
    }
}

/// The queue that holds tasks of this kind.
pub open spec fn queue_of(kind: TaskKind, cpu: Seq<Task>, io: Seq<Task>) -> Seq<Task> {
    match kind {
        TaskKind::Cpu => cpu,
        TaskKind::Io => io,
    }
}

/// The kind a worker tries first: CPU for a reserved worker, I/O for the others.
pub open spec fn first_choice(worker_id: usize, worker_count: usize, reserved: usize) -> TaskKind {
    if is_cpu_reserved(worker_id, worker_count, reserved) {
        TaskKind::Cpu
    } else {
        TaskKind::Io
    }
}

/// The queue from which the optimized policy takes a task for this worker:
/// its first choice when that queue's front fits, else the other queue when
/// its front fits, else none.
pub open spec fn optimized_pick(
    worker_id: usize,
    worker_count: usize,
    reserved: usize,
    cpu: Seq<Task>,
    io: Seq<Task>,
    load: int,
) -> Option<TaskKind> {
    let first = first_choice(worker_id, worker_count, reserved);
    let second = other_kind(first);
    if front_fits(queue_of(first, cpu, io), load) {
        Some(first)
    } else if front_fits(queue_of(second, cpu, io), load) {
        Some(second)
    } else {
        None
    }
}

/// Whether a task with this CPU share fits in the budget under this load.
fn fits(load: u64, cost: u64) -> (b: bool)
    ensures
        b == fits_budget(load as int, cost as int),
{
    load <= CPU_BUDGET_PCT && cost <= CPU_BUDGET_PCT - load
}

/// Takes the front task of the queue when it fits in the budget; leaves the
/// queue unchanged otherwise, even when a later task would fit.
pub fn pop_fifo_task(queue: &mut VecDeque<Task>, current_cpu_load: u64) -> (r: Option<Task>)
    ensures
        r == front_taken(old(queue)@, current_cpu_load as int),
        final(queue)@ == after_front_taken(old(queue)@, current_cpu_load as int),
{
    if queue.len() > 0 && fits(current_cpu_load, queue[0].cpu_cost_pct) {
        queue.pop_front()
    } else {
        None
    }
}

/// Takes the front task of the queue of this kind when it fits in the budget;
/// the other queue is left alone.
pub fn pop_kind(
    kind: TaskKind,
    cpu_queue: &mut VecDeque<Task>,
    io_queue: &mut VecDeque<Task>,
    current_cpu_load: u64,
) -> (r: Option<Task>)
    ensures
        r == front_taken(queue_of(kind, old(cpu_queue)@, old(io_queue)@), current_cpu_load as int),
        final(cpu_queue)@ == (if kind == TaskKind::Cpu {
            after_front_taken(old(cpu_queue)@, current_cpu_load as int)
        } else {
            old(cpu_queue)@
        }),
        final(io_queue)@ == (if kind == TaskKind::Io {
            after_front_taken(old(io_queue)@, current_cpu_load as int)
        } else {
            old(io_queue)@
        }),
{
    match kind {
        TaskKind::Cpu => pop_fifo_task(cpu_queue, current_cpu_load),
        TaskKind::Io => pop_fifo_task(io_queue, current_cpu_load),
    }
}

/// The optimized policy: a worker among the last `cpu_reserved_workers` of
/// the pool tries the CPU queue first, any other worker the I/O queue first;
/// when the front of the first queue is missing or does not fit in the budget,
/// the worker tries the front of the other queue.
pub fn pop_optimized_task(
    worker_id: usize,
    worker_count: usize,
    cpu_reserved_workers: usize,
    cpu_queue: &mut VecDeque<Task>,
    io_queue: &mut VecDeque<Task>,
    current_cpu_load: u64,
) -> (r: Option<Task>)
    ensures
        ({
            let pick = optimized_pick(
                worker_id,
                worker_count,
                cpu_reserved_workers,
                old(cpu_queue)@,
                old(io_queue)@,
                current_cpu_load as int,
            );
            match pick {
                Some(kind) => {
                    &&& r == Some(queue_of(kind, old(cpu_queue)@, old(io_queue)@)[0])
                    &&& final(cpu_queue)@ == (if kind == TaskKind::Cpu {
                        old(cpu_queue)@.drop_first()
                    } else {
                        old(cpu_queue)@
                    })
                    &&& final(io_queue)@ == (if kind == TaskKind::Io {
                        old(io_queue)@.drop_first()
                    } else {
                        old(io_queue)@
                    })
                },
                None => {
                    &&& r is None
                    &&& final(cpu_queue)@ == old(cpu_queue)@
                    &&& final(io_queue)@ == old(io_queue)@
                },
            }
        }),
{
    let reserved_start = worker_count.saturating_sub(cpu_reserved_workers);
    let first_kind = if worker_id >= reserved_start {
        TaskKind::Cpu
    } else {
        TaskKind::Io
    };
    let second_kind = match first_kind {
        TaskKind::Cpu => TaskKind::Io,
        TaskKind::Io => TaskKind::Cpu,
    };
    let first = pop_kind(first_kind, cpu_queue, io_queue, current_cpu_load);
    if first.is_some() {
        return first;
    }
    pop_kind(second_kind, cpu_queue, io_queue, current_cpu_load)
}


/// The dispatcher as a mathematical value: its fixed parameters, whether the
/// generator has finished, whether the workers have been shut down, the idle
/// workers in the order they reported in, and the ready queues.
pub struct DispatcherView {
    pub policy: Policy,
    pub worker_count: usize,
    pub cpu_reserved_workers: usize,
    pub generator_done: bool,
    pub shut_down: bool,
    pub available: Seq<usize>,
    pub fifo: Seq<Task>,
    pub cpu: Seq<Task>,
    pub io: Seq<Task>,
}

/// The number of workers the policy reserves for CPU work first.
pub open spec fn reserved_workers_of(policy: Policy) -> usize {
    match policy {
        Policy::Fifo => 0,
        Policy::Optimized => OPTIMIZED_CPU_RESERVED_WORKERS,
    }
}

/// A fresh dispatcher for the experiment: nothing queued, no worker idle yet.
pub open spec fn initial_dispatcher(config: ExperimentConfig) -> DispatcherView {
    DispatcherView {
        policy: config.policy,
        worker_count: config.worker_count,
        cpu_reserved_workers: reserved_workers_of(config.policy),
        generator_done: false,
        shut_down: false,
        available: Seq::empty(),
        fifo: Seq::empty(),
        cpu: Seq::empty(),
        io: Seq::empty(),
    }
}

impl DispatcherView {
    /// The routing invariant: the FIFO policy uses its one queue only; the
    /// optimized policy keeps CPU tasks in the CPU queue and I/O tasks in the
    /// I/O queue, and reserves its workers as its policy says.
    pub open spec fn wf(self) -> bool {
        &&& self.cpu_reserved_workers == reserved_workers_of(self.policy)
        &&& match self.policy {
            Policy::Fifo => self.cpu.len() == 0 && self.io.len() == 0,
            Policy::Optimized => {
                &&& self.fifo.len() == 0
                &&& forall|i: int| 0 <= i < self.cpu.len() ==> #[trigger] self.cpu[i].kind == TaskKind::Cpu
                &&& forall|i: int| 0 <= i < self.io.len() ==> #[trigger] self.io[i].kind == TaskKind::Io
            },
        }
    }

    pub open spec fn queues_empty(self) -> bool {
        self.fifo.len() == 0 && self.cpu.len() == 0 && self.io.len() == 0
    }

    /// Every task that waits, queue after queue.
    pub open spec fn queued(self) -> Seq<Task> {
        self.fifo + self.cpu + self.io
    }

    /// The run is over: no more tasks will come, none waits, and every worker is idle.
    pub open spec fn finished(self) -> bool {
        self.generator_done && self.queues_empty() && self.available.len() == self.worker_count
    }

    /// A worker reported that it is idle.
    pub open spec fn worker_ready(self, worker_id: usize) -> DispatcherView {
        DispatcherView { available: self.available.push(worker_id), ..self }
    }

    /// A task arrived: the FIFO policy appends it to its one queue, the
    /// optimized policy to the queue of its kind.
    pub open spec fn receive(self, task: Task) -> DispatcherView {
        match self.policy {
            Policy::Fifo => DispatcherView { fifo: self.fifo.push(task), ..self },
            Policy::Optimized => match task.kind {
                TaskKind::Cpu => DispatcherView { cpu: self.cpu.push(task), ..self },
                TaskKind::Io => DispatcherView { io: self.io.push(task), ..self },
            },
        }
    }

    /// The generator finished.
    pub open spec fn generator_finished(self) -> DispatcherView {
        DispatcherView { generator_done: true, ..self }
    }

    /// The workers are shut down.
    pub open spec fn shutdown(self) -> DispatcherView {
        DispatcherView { shut_down: true, ..self }
    }

    /// One dispatch decision under this CPU load: the first idle worker gets
    /// the task that the policy picks for it, if any; when none fits, nothing
    /// changes and the worker stays first in line. Once the workers are shut
    /// down, no task is handed out.
    pub open spec fn dispatch(self, load: int) -> (DispatcherView, Option<(usize, Task)>) {
        if self.shut_down || self.available.len() == 0 {
            (self, None)
        } else {
            let w = self.available[0];
            match self.policy {
                Policy::Fifo => if front_fits(self.fifo, load) {
                    (
                        DispatcherView {
                            available: self.available.drop_first(),
                            fifo: self.fifo.drop_first(),
                            ..self
                        },
                        Some((w, self.fifo[0])),
                    )
                } else {
                    (self, None)
                },
                Policy::Optimized => match optimized_pick(
                    w,
                    self.worker_count,
                    self.cpu_reserved_workers,
                    self.cpu,
                    self.io,
                    load,
                ) {
                    Some(kind) => (
                        DispatcherView {
                            available: self.available.drop_first(),
                            cpu: if kind == TaskKind::Cpu {
                                self.cpu.drop_first()
                            } else {
                                self.cpu
                            },
                            io: if kind == TaskKind::Io {
                                self.io.drop_first()
                            } else {
                                self.io
                            },
                            ..self
                        },
                        Some((w, queue_of(kind, self.cpu, self.io)[0])),
                    ),
                    None => (self, None),
                },
            }
        }
    }
}

/// One input to the dispatcher, as the loop around it feeds them in.
pub enum DispatchEvent {
    /// A worker reported that it is idle.
    WorkerReady(usize),
    /// A task arrived from the generator.
    TaskArrived(Task),
    /// The generator finished.
    GeneratorDone,
    /// A dispatch decision was taken under this CPU load.
    Dispatch(int),
}

impl DispatcherView {
    /// The effect of one event: the next state, and the worker and task handed
    /// out, if any.
    pub open spec fn apply(self, event: DispatchEvent) -> (DispatcherView, Option<(usize, Task)>) {
        match event {
            DispatchEvent::WorkerReady(w) => (self.worker_ready(w), None),
            DispatchEvent::TaskArrived(t) => (self.receive(t), None),
            DispatchEvent::GeneratorDone => (self.generator_finished(), None),
            DispatchEvent::Dispatch(load) => self.dispatch(load),
        }
    }

    /// The effect of a sequence of events: the final state, and the tasks
    /// handed out, in order.
    pub open spec fn run(self, events: Seq<DispatchEvent>) -> (DispatcherView, Seq<Task>)
        decreases events.len(),
    {
        if events.len() == 0 {
            (self, Seq::empty())
        } else {
            let (before, handed) = self.run(events.drop_last());
            let (after, out) = before.apply(events.last());
            match out {
                Some((_w, t)) => (after, handed.push(t)),
                None => (after, handed),
            }
        }
    }

    /// Every waiting task fits in the budget on its own.
    pub open spec fn costs_fit(self) -> bool {
        forall|t: Task| #[trigger] self.queued().contains(t) ==> t.cpu_cost_pct <= CPU_BUDGET_PCT
    }

    /// Serves the queues with a pool in which each worker finishes its task
    /// and reports idle again before the next decision, at zero load, for at
    /// most this many rounds; stops early when no task is handed out.
    pub open spec fn drain(self, rounds: nat) -> DispatcherView
        decreases rounds,
    {
        if rounds == 0 {
            self
        } else {
            match self.dispatch(0) {
                (next, Some((w, _t))) => next.worker_ready(w).drain((rounds - 1) as nat),
                (next, None) => next,
            }
        }
    }
}

/// The tasks that arrive in a sequence of events, in order.
pub open spec fn arrivals(events: Seq<DispatchEvent>) -> Seq<Task>
    decreases events.len(),
{
    if events.len() == 0 {
        Seq::empty()
    } else {
        match events.last() {
            DispatchEvent::TaskArrived(t) => arrivals(events.drop_last()).push(t),
            _ => arrivals(events.drop_last()),
        }
    }
}

/// The dispatcher: the ready queues, the idle workers, and what it knows of
/// the generator.
pub struct Dispatcher {
    policy: Policy,
    worker_count: usize,
    cpu_reserved_workers: usize,
    generator_done: bool,
    shut_down: bool,
    available_workers: VecDeque<usize>,
    fifo_queue: VecDeque<Task>,
    cpu_queue: VecDeque<Task>,
    io_queue: VecDeque<Task>,
}

impl View for Dispatcher {
    type V = DispatcherView;

    closed spec fn view(&self) -> DispatcherView {
        DispatcherView {
            policy: self.policy,
            worker_count: self.worker_count,
            cpu_reserved_workers: self.cpu_reserved_workers,
            generator_done: self.generator_done,
            shut_down: self.shut_down,
            available: self.available_workers@,
            fifo: self.fifo_queue@,
            cpu: self.cpu_queue@,
            io: self.io_queue@,
        }
    }
}

impl Dispatcher {
    /// A dispatcher for the experiment, with nothing queued and no worker idle.
    pub fn new(config: &ExperimentConfig) -> (d: Self)
        ensures
            d@ == initial_dispatcher(*config),
            d@.wf(),
    {
        let cpu_reserved_workers = match config.policy {
            Policy::Fifo => 0,
            Policy::Optimized => OPTIMIZED_CPU_RESERVED_WORKERS,
        };
        Dispatcher {
            policy: config.policy,
            worker_count: config.worker_count,
            cpu_reserved_workers,
            generator_done: false,
            shut_down: false,
            available_workers: VecDeque::new(),
            fifo_queue: VecDeque::new(),
            cpu_queue: VecDeque::new(),
            io_queue: VecDeque::new(),
        }
    }

    /// A worker reports that it is idle; it joins the end of the line.
    pub fn worker_ready(&mut self, worker_id: usize)
        requires
            old(self)@.wf(),
        ensures
            final(self)@ == old(self)@.worker_ready(worker_id),
            final(self)@.wf(),
    {
        self.available_workers.push_back(worker_id);
    }

    /// A task arrives and is queued as the policy says.
    pub fn receive_task(&mut self, task: Task)
        requires
            old(self)@.wf(),
        ensures
            final(self)@ == old(self)@.receive(task),
            final(self)@.wf(),
    {
        match self.policy {
            Policy::Fifo => self.fifo_queue.push_back(task),
            Policy::Optimized => match task.kind {
                TaskKind::Cpu => self.cpu_queue.push_back(task),
                TaskKind::Io => self.io_queue.push_back(task),
            },
        }
    }

    /// The generator has sent its last task.
    pub fn mark_generator_done(&mut self)
        requires
            old(self)@.wf(),
        ensures
            final(self)@ == old(self)@.generator_finished(),
            final(self)@.wf(),
    {
        self.generator_done = true;
    }

    /// One dispatch decision under the current CPU load: the first idle worker
    /// and the task the policy picks for it, or nothing when no task fits, in
    /// which case the worker stays first in line.
    pub fn dispatch_next(&mut self, current_cpu_load: u64) -> (r: Option<(usize, Task)>)
        requires
            old(self)@.wf(),
        ensures
            (final(self)@, r) == old(self)@.dispatch(current_cpu_load as int),
            final(self)@.wf(),
    {
        if self.shut_down {
            return None;
        }
        let worker_id = match self.available_workers.pop_front() {
            Some(w) => w,
            None => {
                return None;
            },
        };
        let picked = match self.policy {
            Policy::Fifo => pop_fifo_task(&mut self.fifo_queue, current_cpu_load),
            Policy::Optimized => pop_optimized_task(
                worker_id,
                self.worker_count,
                self.cpu_reserved_workers,
                &mut self.cpu_queue,
                &mut self.io_queue,
                current_cpu_load,
            ),
        };
        match picked {
            Some(task) => Some((worker_id, task)),
            None => {
                self.available_workers.push_front(worker_id);
                proof {
                    assert(self.available_workers@ =~= old(self)@.available);
                }
                None
            },
        }
    }

    /// Shuts the workers down once the run is over: the workers to send the
    /// shutdown to are every worker of the pool, each once, in order; after
    /// this no task is handed out.
    pub fn shut_down(&mut self) -> (targets: Vec<usize>)
        requires
            old(self)@.wf(),
            old(self)@.finished(),
        ensures
            final(self)@ == old(self)@.shutdown(),
            final(self)@.wf(),
            targets@ == Seq::new(old(self)@.worker_count as nat, |i: int| i as usize),
    {
        self.shut_down = true;
        let mut targets: Vec<usize> = Vec::new();
        let mut i: usize = 0;
        while i < self.worker_count
            invariant
                i <= self.worker_count,
                targets@ == Seq::new(i as nat, |k: int| k as usize),
            decreases self.worker_count - i,
        {
            targets.push(i);
            i = i + 1;
            proof {
                assert(targets@ =~= Seq::new(i as nat, |k: int| k as usize));
            }
        }
        targets
    }

    /// Whether no task waits in any queue.
    pub fn queues_empty(&self) -> (b: bool)
        ensures
            b == self@.queues_empty(),
    {
        self.fifo_queue.len() == 0 && self.cpu_queue.len() == 0 && self.io_queue.len() == 0
    }

    /// Whether the run is over: the generator is done, no task waits, and
    /// every worker is idle.
    pub fn is_finished(&self) -> (b: bool)
        ensures
            b == self@.finished(),
    {
        self.generator_done && self.queues_empty() && self.available_workers.len()
            == self.worker_count
    }

    /// Whether the dispatcher should keep listening for arriving tasks: the
    /// generator may still send some, or tasks still wait.
    pub fn awaits_tasks(&self) -> (b: bool)
        ensures
            b == (!self@.generator_done || !self@.queues_empty()),
    {
        !self.generator_done || !self.queues_empty()
    }

    /// The lengths of the FIFO, CPU and I/O queues.
    pub fn queue_lengths(&self) -> (r: (usize, usize, usize))
        ensures
            r.0 == self@.fifo.len(),
            r.1 == self@.cpu.len(),
            r.2 == self@.io.len(),
    {
        (self.fifo_queue.len(), self.cpu_queue.len(), self.io_queue.len())
    }
}

} // verus!
