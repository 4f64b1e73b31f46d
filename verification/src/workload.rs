//! The workload: how the tasks of an experiment are drawn, and the small
//! decisions of the generator that releases them over time.
use crate::rng::{draw_in_range, draw_ratio, seeded_rng, DrawRequest, SeededRng};
use crate::task::{cpu_cost_of, ExperimentConfig, Task, TaskKind, WorkloadKind};
use vstd::prelude::*;

verus! {

/// The longest extra pause, in milliseconds, that the generator takes after
/// releasing a task.
pub const GENERATOR_JITTER_MS: u64 = 4;

/// The offset added to the base interval to seed the generator's jitter.
pub const JITTER_SEED_OFFSET: u64 = 9999;

/// How far, in milliseconds, a steady arrival interval may stray from the base.
pub const INTERVAL_SPREAD_MS: u64 = 6;

/// The longest arrival interval, in milliseconds, inside a burst.
pub const BURST_INTERVAL_MAX_MS: u64 = 2;

/// Stressed workloads burst during the first `BURST_LENGTH` of every
/// `BURST_PERIOD` task ids.
pub const BURST_PERIOD: usize = 100;

pub const BURST_LENGTH: usize = 35;

/// The chance, in percent, that a task of the workload is I/O-bound.
pub open spec fn io_chance(workload: WorkloadKind) -> u32 {
    match workload {
        WorkloadKind::Balanced => 70,
        WorkloadKind::Stressed => 35,
    }
}

/// Whether the task with this id arrives in a burst.
pub open spec fn in_burst(workload: WorkloadKind, id: int) -> bool {
    workload == WorkloadKind::Stressed && id % (BURST_PERIOD as int) < BURST_LENGTH as int
}

/// The shortest interval, in milliseconds, between the previous arrival and
/// that of the task with this id.
pub open spec fn interval_low(config: ExperimentConfig, id: int) -> int {
    if in_burst(config.workload, id) {
        0
    } else if config.base_interval_ms >= INTERVAL_SPREAD_MS {
        config.base_interval_ms - INTERVAL_SPREAD_MS
    } else {
        0
    }
}

/// The longest such interval.
pub open spec fn interval_high(config: ExperimentConfig, id: int) -> int {
    if in_burst(config.workload, id) {
        BURST_INTERVAL_MAX_MS as int
    } else {
        config.base_interval_ms + INTERVAL_SPREAD_MS
    }
}

/// The shortest duration, in milliseconds, of a task of this kind.
pub open spec fn duration_low(workload: WorkloadKind, kind: TaskKind) -> u64 {
    match (workload, kind) {
        (WorkloadKind::Balanced, _) => 180,
        (WorkloadKind::Stressed, TaskKind::Io) => 120,
        (WorkloadKind::Stressed, TaskKind::Cpu) => 240,
    }
}

/// The longest such duration.
pub open spec fn duration_high(workload: WorkloadKind, kind: TaskKind) -> u64 {
    match (workload, kind) {
        (WorkloadKind::Balanced, _) => 220,
        (WorkloadKind::Stressed, TaskKind::Io) => 240,
        (WorkloadKind::Stressed, TaskKind::Cpu) => 380,
    }
}

/// The arrival offset of the task before the one at `i`, or the start of the
/// run for the first.
pub open spec fn previous_arrival(tasks: Seq<Task>, i: int) -> int {
    if i == 0 {
        0
    } else {
        tasks[i - 1].arrival_offset_ms as int
    }
}

/// The task at `i` is the `i`-th task of the experiment: its id is its place,
/// its CPU share is that of its kind, and its interval and duration lie in the
/// ranges the workload draws them from.
pub open spec fn well_drawn(config: ExperimentConfig, tasks: Seq<Task>, i: int) -> bool {
    let t = tasks[i];
    &&& t.id == i
    &&& t.cpu_cost_pct == cpu_cost_of(t.kind)
    &&& duration_low(config.workload, t.kind) <= t.duration_ms <= duration_high(config.workload, t.kind)
    &&& interval_low(config, i) <= t.arrival_offset_ms - previous_arrival(tasks, i)
    &&& t.arrival_offset_ms - previous_arrival(tasks, i) <= interval_high(config, i)
}

/// The chance, in percent, that a task of the workload is I/O-bound.
pub fn io_chance_pct(workload: WorkloadKind) -> (p: u32)
    ensures
        p == io_chance(workload),
{
    match workload {
        WorkloadKind::Balanced => 70,
        WorkloadKind::Stressed => 35,
    }
}

/// Whether the task with this id arrives in a burst.
pub fn is_burst(workload: WorkloadKind, id: usize) -> (b: bool)
    ensures
        b == in_burst(workload, id as int),
{
    match workload {
        WorkloadKind::Balanced => false,
        WorkloadKind::Stressed => id % BURST_PERIOD < BURST_LENGTH,
    }
}

/// The base interval plus the spread fits in a `u64` wherever it is needed:
/// for a task that arrives outside a burst.
pub open spec fn interval_fits(config: ExperimentConfig, id: int) -> bool {
    !in_burst(config.workload, id) ==> config.base_interval_ms <= u64::MAX - INTERVAL_SPREAD_MS
}

/// Every task of the experiment that arrives outside a burst has an interval
/// range that fits in a `u64`: the experiment has no tasks, or only tasks of
/// the first burst of a stressed workload, or a base interval with room for
/// the spread.
pub open spec fn intervals_fit(config: ExperimentConfig) -> bool {
    ||| config.task_count == 0
    ||| config.workload == WorkloadKind::Stressed && config.task_count <= BURST_LENGTH
    ||| config.base_interval_ms <= u64::MAX - INTERVAL_SPREAD_MS
}

/// The inclusive range, in milliseconds, from which the interval before the
/// task with this id is drawn.
pub fn interval_bounds(config: &ExperimentConfig, id: usize) -> (r: (u64, u64))
    requires
        interval_fits(*config, id as int),
    ensures
        r.0 == interval_low(*config, id as int),
        r.1 == interval_high(*config, id as int),
        r.0 <= r.1,
{
    if is_burst(config.workload, id) {
        (0, BURST_INTERVAL_MAX_MS)
    } else {
        (
            config.base_interval_ms.saturating_sub(INTERVAL_SPREAD_MS),
            config.base_interval_ms + INTERVAL_SPREAD_MS,
        )
    }
}

/// The inclusive range, in milliseconds, from which the duration of a task of
/// this kind is drawn.
pub fn duration_bounds(workload: WorkloadKind, kind: TaskKind) -> (r: (u64, u64))
    ensures
        r.0 == duration_low(workload, kind),
        r.1 == duration_high(workload, kind),
        r.0 <= r.1,
{
    match (workload, kind) {
        (WorkloadKind::Balanced, _) => (180, 220),
        (WorkloadKind::Stressed, TaskKind::Io) => (120, 240),
        (WorkloadKind::Stressed, TaskKind::Cpu) => (240, 380),
    }
}

/// Builds the task with this id from what was drawn for it: whether it is
/// I/O-bound, the interval since the previous arrival, and its duration.
pub fn task_from_draws(
    id: usize,
    previous_offset_ms: u128,
    is_io: bool,
    interval_ms: u64,
    duration_ms: u64,
) -> (t: Task)
    requires
        previous_offset_ms + interval_ms <= u128::MAX,
    ensures
        t.id == id,
        t.kind == (if is_io { TaskKind::Io } else { TaskKind::Cpu }),
        t.arrival_offset_ms == previous_offset_ms + interval_ms,
        t.duration_ms == duration_ms,
        t.cpu_cost_pct == cpu_cost_of(t.kind),
{
    let kind = if is_io {
        TaskKind::Io
    } else {
        TaskKind::Cpu
    };
    Task {
        id,
        arrival_offset_ms: previous_offset_ms + interval_ms as u128,
        kind,
        duration_ms,
        cpu_cost_pct: kind.cpu_cost_pct(),
    }
}

/// Arrival offsets never outgrow what `task_count` intervals of at most
/// `base + spread` milliseconds add up to, and that fits in a `u128`.
proof fn lemma_offset_room(i: int, step: int, offset: int, interval: int)
    requires
        0 <= i < 0x1_0000_0000_0000_0000,
        0 <= step < 0x1_0000_0000_0000_0000,
        0 <= offset <= i * step,
        0 <= interval <= step,
    ensures
        offset + interval <= (i + 1) * step,
        (i + 1) * step <= u128::MAX,
{
    assert((i + 1) * step == i * step + step) by (nonlinear_arith);
    assert((i + 1) * step <= 0x1_0000_0000_0000_0000 * 0xFFFF_FFFF_FFFF_FFFF) by (nonlinear_arith)
        requires
            0 <= i + 1 <= 0x1_0000_0000_0000_0000,
            0 <= step <= 0xFFFF_FFFF_FFFF_FFFF,
    ;
}

/// The draws asked of the generator for the task at `id` of this kind:
/// whether it is I/O-bound, with the workload's chance in percent; then the
/// interval since the previous arrival; then its duration.
pub open spec fn requests_for_task(config: ExperimentConfig, id: int, kind: TaskKind) -> Seq<
    DrawRequest,
> {
    seq![
        DrawRequest::Ratio(io_chance(config.workload), 100),
        DrawRequest::Range(interval_low(config, id) as u64, interval_high(config, id) as u64),
        DrawRequest::Range(duration_low(config.workload, kind), duration_high(config.workload, kind)),
    ]
}

/// The draws asked of the generator for these tasks, task after task.
pub open spec fn requests_for_tasks(config: ExperimentConfig, tasks: Seq<Task>) -> Seq<DrawRequest>
    decreases tasks.len(),
{
    if tasks.len() == 0 {
        Seq::empty()
    } else {
        requests_for_tasks(config, tasks.drop_last()) + requests_for_task(
            config,
            tasks.len() - 1,
            tasks.last().kind,
        )
    }
}

/// Draws the tasks of an experiment from a generator seeded with the
/// experiment's seed, and returns them with that generator. For each task in
/// turn it asks the generator whether the task is I/O-bound, with the
/// workload's chance, then for the interval since the previous arrival, then
/// for the task's duration, each from the range the workload gives.
pub fn generate_tasks(config: &ExperimentConfig) -> (r: (Vec<Task>, SeededRng))
    requires
        intervals_fit(*config),
    ensures
        r.0.len() == config.task_count,
        forall|i: int| 0 <= i < r.0.len() ==> #[trigger] well_drawn(*config, r.0@, i),
        r.1.seed() == config.seed,
        r.1.requests() == requests_for_tasks(*config, r.0@),
{
    let mut rng: SeededRng = seeded_rng(config.seed);
    let mut tasks: Vec<Task> = Vec::new();
    let mut next_offset: u128 = 0;
    let ghost step: int = if config.base_interval_ms <= u64::MAX - INTERVAL_SPREAD_MS {
        config.base_interval_ms + INTERVAL_SPREAD_MS
    } else {
        BURST_INTERVAL_MAX_MS as int
    };
    let mut id: usize = 0;
    while id < config.task_count
        invariant
            intervals_fit(*config),
            step == (if config.base_interval_ms <= u64::MAX - INTERVAL_SPREAD_MS {
                config.base_interval_ms + INTERVAL_SPREAD_MS
            } else {
                BURST_INTERVAL_MAX_MS as int
            }),
            id <= config.task_count,
            tasks.len() == id,
            0 <= next_offset <= id * step,
            next_offset == previous_arrival(tasks@, id as int),
            forall|i: int| 0 <= i < id ==> #[trigger] well_drawn(*config, tasks@, i),
            rng.seed() == config.seed,
            rng.requests() == requests_for_tasks(*config, tasks@),
        decreases config.task_count - id,
    {
        let is_io = draw_ratio(&mut rng, io_chance_pct(config.workload), 100);
        let kind = if is_io {
            TaskKind::Io
        } else {
            TaskKind::Cpu
        };
        let (low, high) = interval_bounds(config, id);
        let interval_ms = draw_in_range(&mut rng, low, high);
        let (shortest, longest) = duration_bounds(config.workload, kind);
        let duration_ms = draw_in_range(&mut rng, shortest, longest);
        proof {
            lemma_offset_room(id as int, step, next_offset as int, interval_ms as int);
        }
        let task = task_from_draws(id, next_offset, is_io, interval_ms, duration_ms);
        let ghost before = tasks@;
        tasks.push(task);
        next_offset = task.arrival_offset_ms;
        proof {
            assert(tasks@.drop_last() == before);
            assert(rng.requests() =~= requests_for_tasks(*config, tasks@));
            assert forall|i: int| 0 <= i <= id implies #[trigger] well_drawn(*config, tasks@, i) by {
                if i < id {
                    assert(tasks@[i] == before[i]);
                    assert(well_drawn(*config, before, i));
                    if i > 0 {
                        assert(tasks@[i - 1] == before[i - 1]);
                    }
                }
            }
        }
        id = id + 1;
    }
    (tasks, rng)
}

/// How long the generator still waits, in nanoseconds, before it releases a
/// task due `arrival_offset_ms` after the start of the run, when
/// `elapsed_ns` have passed since then: nothing once the task is due.
pub fn arrival_wait_ns(arrival_offset_ms: u128, elapsed_ns: u128) -> (w: u128)
    requires
        arrival_offset_ms * 1_000_000 <= u128::MAX,
    ensures
        w == (if arrival_offset_ms * 1_000_000 > elapsed_ns {
            arrival_offset_ms * 1_000_000 - elapsed_ns
        } else {
            0
        }),
{
    let target_ns = arrival_offset_ms * 1_000_000;
    if target_ns > elapsed_ns {
        target_ns - elapsed_ns
    } else {
        0
    }
}

/// The pauses that the generator takes between releases, drawn from their own
/// generator seeded from the experiment's base interval.
pub struct JitterSource {
    rng: SeededRng,
}

impl JitterSource {
    /// The seed of the generator the pauses are drawn from.
    pub closed spec fn seed(&self) -> u64 {
        self.rng.seed()
    }

    /// The draws asked of that generator so far, in order.
    pub closed spec fn requests(&self) -> Seq<DrawRequest> {
        self.rng.requests()
    }

    /// Seeds the pauses of an experiment with this base interval: the
    /// generator's seed is the base interval plus `JITTER_SEED_OFFSET`.
    pub fn new(base_interval_ms: u64) -> (s: Self)
        requires
            base_interval_ms <= u64::MAX - JITTER_SEED_OFFSET,
        ensures
            s.seed() == JITTER_SEED_OFFSET + base_interval_ms,
            s.requests() == Seq::<DrawRequest>::empty(),
    {
        JitterSource { rng: seeded_rng(JITTER_SEED_OFFSET + base_interval_ms) }
    }

    /// The pause, in milliseconds, after the next release: a draw from
    /// `0..=GENERATOR_JITTER_MS`.
    pub fn next_jitter_ms(&mut self) -> (j: u64)
        ensures
            j <= GENERATOR_JITTER_MS,
            final(self).seed() == old(self).seed(),
            final(self).requests() == old(self).requests().push(
                DrawRequest::Range(0, GENERATOR_JITTER_MS),
            ),
    {
        draw_in_range(&mut self.rng, 0, GENERATOR_JITTER_MS)
    }
}

} // verus!
