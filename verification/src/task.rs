use vstd::prelude::*;

verus! {

/// The simulated CPU budget shared by all running tasks, in whole percent.
pub const CPU_BUDGET_PCT: u64 = 100;

/// Share of the CPU budget that a running I/O-bound task holds, in percent.
pub const IO_TASK_CPU_COST_PCT: u64 = 10;

/// Share of the CPU budget that a running CPU-bound task holds, in percent.
pub const CPU_TASK_CPU_COST_PCT: u64 = 40;

/// The class of a task.
#[derive(Clone, Copy, Debug, PartialEq, Eq, Structural)]
pub enum TaskKind {
    Cpu,
    Io,
}

/// How the dispatcher orders ready tasks.
#[derive(Clone, Copy, Debug, PartialEq, Eq, Structural)]
pub enum Policy {
    /// One shared ready queue, served strictly from its front.
    Fifo,
    /// Separate CPU and I/O queues; the last workers are reserved for CPU work.
    Optimized,
}

/// The shape of the generated workload.
#[derive(Clone, Copy, Debug, PartialEq, Eq, Structural)]
pub enum WorkloadKind {
    /// Mostly I/O work arriving at a steady pace.
    Balanced,
    /// Mostly CPU work, longer CPU tasks, and bursts of near-simultaneous arrivals.
    Stressed,
}

/// One unit of simulated work.
#[derive(Clone, Copy, Debug, PartialEq, Eq, Structural)]
pub struct Task {
    pub id: usize,
    /// When the task enters the system, in milliseconds after the run starts.
    pub arrival_offset_ms: u128,
    pub kind: TaskKind,
    /// How long a worker is busy with the task, in milliseconds.
    pub duration_ms: u64,
    /// Share of the CPU budget the task holds while it runs, in percent.
    pub cpu_cost_pct: u64,
}

/// The parameters of one experiment run.
#[derive(Clone, Copy, Debug)]
pub struct ExperimentConfig {
    pub name: &'static str,
    pub workload: WorkloadKind,
    pub policy: Policy,
    pub task_count: usize,
    pub base_interval_ms: u64,
    pub worker_count: usize,
    pub seed: u64,
}

/// The CPU share a task of this kind holds while it runs.
pub open spec fn cpu_cost_of(kind: TaskKind) -> u64 {
    match kind {
        TaskKind::Io => IO_TASK_CPU_COST_PCT,
        TaskKind::Cpu => CPU_TASK_CPU_COST_PCT,
    }
}

pub open spec fn task_kind_label(kind: TaskKind) -> Seq<char> {
    match kind {
        TaskKind::Cpu => "CPU"@,
        TaskKind::Io => "IO"@,
    }
}

pub open spec fn policy_label(policy: Policy) -> Seq<char> {
    match policy {
        Policy::Fifo => "FIFO"@,
        Policy::Optimized => "Optimized"@,
    }
}

pub open spec fn workload_label(workload: WorkloadKind) -> Seq<char> {
    match workload {
        WorkloadKind::Balanced => "Balanced"@,
        WorkloadKind::Stressed => "Stressed"@,
    }
}

impl TaskKind {
    /// The name under which the kind is reported.
    pub fn label(&self) -> (s: &'static str)
        ensures
            s@ == task_kind_label(*self),
    {
        match self {
            TaskKind::Cpu => "CPU",
            TaskKind::Io => "IO",
        }
    }

    /// The share of the CPU budget that a task of this kind holds while it runs.
    pub fn cpu_cost_pct(&self) -> (c: u64)
        ensures
            c == cpu_cost_of(*self),
    {
        match self {
            TaskKind::Io => IO_TASK_CPU_COST_PCT,
            TaskKind::Cpu => CPU_TASK_CPU_COST_PCT,
        }
    }
}

impl Policy {
    /// The name under which the policy is reported.
    pub fn label(&self) -> (s: &'static str)
        ensures
            s@ == policy_label(*self),
    {
        match self {
            Policy::Fifo => "FIFO",
            Policy::Optimized => "Optimized",
        }
    }
}

impl WorkloadKind {
    /// The name under which the workload is reported.
    pub fn label(&self) -> (s: &'static str)
        ensures
            s@ == workload_label(*self),
    {
        match self {
            WorkloadKind::Balanced => "Balanced",
            WorkloadKind::Stressed => "Stressed",
        }
    }
}

} // verus!
