//! The statistics of a finished run, in whole numbers: sums, counts, maxima
//! and integer averages of what the workers recorded and the monitor sampled.
use crate::state::{CollectorState, MonitorSample, TaskRecord};
use crate::task::TaskKind;
use vstd::prelude::*;

verus! {

/// A quantity that each task record contributes to a total.
pub enum RecordMeasure {
    /// The task's wait before it started.
    Wait,
    /// The task's time from arrival to completion.
    Turnaround,
    /// One for a task of this kind, none otherwise.
    CountOf(TaskKind),
    /// The task's wait if it is of this kind, none otherwise.
    WaitOf(TaskKind),
}

/// A quantity that each monitor sample contributes to a total.
pub enum SampleMeasure {
    CpuLoad,
    BusyWorkers,
    QueueLen,
}

pub open spec fn record_measure(r: TaskRecord, m: RecordMeasure) -> int {
    match m {
        RecordMeasure::Wait => r.wait_ns as int,
        RecordMeasure::Turnaround => r.turnaround_ns as int,
        RecordMeasure::CountOf(kind) => if r.kind == kind {
            1
        } else {
            0
        },
        RecordMeasure::WaitOf(kind) => if r.kind == kind {
            r.wait_ns as int
        } else {
            0
        },
    }
}

pub open spec fn sample_measure(s: MonitorSample, m: SampleMeasure) -> int {
    match m {
        SampleMeasure::CpuLoad => s.cpu_load as int,
        SampleMeasure::BusyWorkers => s.busy_workers as int,
        SampleMeasure::QueueLen => s.queue_len as int,
    }
}

/// The sum of the measure over the records.
pub open spec fn record_total(records: Seq<TaskRecord>, m: RecordMeasure) -> int
    decreases records.len(),
{
    if records.len() == 0 {
        0
    } else {
        record_total(records.drop_last(), m) + record_measure(records.last(), m)
    }
}

/// The sum of the measure over the samples.
pub open spec fn sample_total(samples: Seq<MonitorSample>, m: SampleMeasure) -> int
    decreases samples.len(),
{
    if samples.len() == 0 {
        0
    } else {
        sample_total(samples.drop_last(), m) + sample_measure(samples.last(), m)
    }
}

/// The longest wait among the records, or zero when there are none.
pub open spec fn longest_wait(records: Seq<TaskRecord>) -> u64
    decreases records.len(),
{
    if records.len() == 0 {
        0
    } else {
        let rest = longest_wait(records.drop_last());
        if records.last().wait_ns > rest {
            records.last().wait_ns
        } else {
            rest
        }
    }
}

/// The longest queue among the samples, or zero when there are none.
pub open spec fn longest_queue(samples: Seq<MonitorSample>) -> usize
    decreases samples.len(),
{
    if samples.len() == 0 {
        0
    } else {
        let rest = longest_queue(samples.drop_last());
        if samples.last().queue_len > rest {
            samples.last().queue_len
        } else {
            rest
        }
    }
}

/// The average of a total over a count, rounded to the nearest whole number
/// with halves rounded up, or zero when nothing was counted.
pub open spec fn average(total: int, count: int) -> int {
    if count == 0 {
        0
    } else if 2 * (total % count) >= count {
        total / count + 1
    } else {
        total / count
    }
}

/// A record contributes at most `bound` to the total.
pub open spec fn record_measure_bounded(m: RecordMeasure, bound: int) -> bool {
    forall|r: TaskRecord| 0 <= #[trigger] record_measure(r, m) <= bound
}

proof fn lemma_record_total_bounded(records: Seq<TaskRecord>, m: RecordMeasure, bound: int)
    requires
        0 <= bound,
        record_measure_bounded(m, bound),
    ensures
        0 <= record_total(records, m) <= records.len() * bound,
    decreases records.len(),
{
    if records.len() > 0 {
        lemma_record_total_bounded(records.drop_last(), m, bound);
        assert(0 <= record_measure(records.last(), m) <= bound);
        assert((records.len() - 1) * bound + bound == records.len() * bound) by (nonlinear_arith);
    }
}

proof fn lemma_sample_total_bounded(samples: Seq<MonitorSample>, m: SampleMeasure)
    ensures
        0 <= sample_total(samples, m) <= samples.len() * (u64::MAX as int),
    decreases samples.len(),
{
    if samples.len() > 0 {
        lemma_sample_total_bounded(samples.drop_last(), m);
        assert(0 <= sample_measure(samples.last(), m) <= u64::MAX);
        assert((samples.len() - 1) * (u64::MAX as int) + u64::MAX == samples.len() * (
        u64::MAX as int)) by (nonlinear_arith);
    }
}

/// At most as many values as fit in a `usize`, each at most `u64::MAX`, add
/// up to no more than a `u128` holds.
proof fn lemma_fits_u128(len: int, total: int)
    requires
        0 <= len <= usize::MAX,
        0 <= total <= len * (u64::MAX as int),
    ensures
        total <= u128::MAX,
{
    assert(len * (u64::MAX as int) <= (u64::MAX as int) * (u64::MAX as int)) by (nonlinear_arith)
        requires
            0 <= len <= u64::MAX,
    ;
}

/// Splits off the last element of a prefix.
proof fn lemma_take_next<A>(s: Seq<A>, i: int)
    requires
        0 <= i < s.len(),
    ensures
        s.take(i + 1).drop_last() == s.take(i),
        s.take(i + 1).last() == s[i],
        s.take(i + 1).len() == i + 1,
{
    assert(s.take(i + 1).drop_last() =~= s.take(i));
}

/// The average duration over a count of tasks, in nanoseconds: the total
/// divided by the count, rounded to the nearest nanosecond with halves
/// rounded up, or zero when there are no tasks.
pub fn divide_duration(total_ns: u128, count: usize) -> (r: u128)
    ensures
        r == average(total_ns as int, count as int),
{
    if count == 0 {
        0
    } else {
        let c = count as u128;
        let quotient = total_ns / c;
        let remainder = total_ns % c;
        if remainder >= c - remainder {
            proof {
                let t = total_ns as int;
                let n = c as int;
                assert(quotient < u128::MAX) by (nonlinear_arith)
                    requires
                        n > 0,
                        0 <= t <= u128::MAX,
                        quotient == t / n,
                        remainder == t % n,
                        remainder >= n - remainder,
                ;
            }
            quotient + 1
        } else {
            quotient
        }
    }
}

/// What the task records of a run add up to.
#[derive(Clone, Copy, Debug, PartialEq, Eq)]
pub struct RecordTotals {
    pub total_tasks_completed: usize,
    pub total_wait_ns: u128,
    pub total_turnaround_ns: u128,
    pub max_wait_ns: u64,
    pub average_wait_ns: u128,
    pub average_turnaround_ns: u128,
    pub cpu_tasks_completed: usize,
    pub io_tasks_completed: usize,
    pub cpu_wait_sum_ns: u128,
    pub io_wait_sum_ns: u128,
}

/// What the monitor samples of a run add up to.
#[derive(Clone, Copy, Debug, PartialEq, Eq)]
pub struct SampleTotals {
    pub sample_count: usize,
    pub cpu_load_sum: u128,
    pub busy_workers_sum: u128,
    pub queue_len_sum: u128,
    pub max_queue_len: usize,
}

/// The statistics of a run that whole numbers hold exactly.
#[derive(Clone, Copy, Debug, PartialEq, Eq)]
pub struct RunTotals {
    pub records: RecordTotals,
    pub samples: SampleTotals,
}

/// The totals are those of the records.
pub open spec fn totals_of_records(t: RecordTotals, records: Seq<TaskRecord>) -> bool {
    &&& t.total_tasks_completed == records.len()
    &&& t.total_wait_ns == record_total(records, RecordMeasure::Wait)
    &&& t.total_turnaround_ns == record_total(records, RecordMeasure::Turnaround)
    &&& t.max_wait_ns == longest_wait(records)
    &&& t.average_wait_ns == average(record_total(records, RecordMeasure::Wait), records.len() as int)
    &&& t.average_turnaround_ns == average(
        record_total(records, RecordMeasure::Turnaround),
        records.len() as int,
    )
    &&& t.cpu_tasks_completed == record_total(records, RecordMeasure::CountOf(TaskKind::Cpu))
    &&& t.io_tasks_completed == record_total(records, RecordMeasure::CountOf(TaskKind::Io))
    &&& t.cpu_wait_sum_ns == record_total(records, RecordMeasure::WaitOf(TaskKind::Cpu))
    &&& t.io_wait_sum_ns == record_total(records, RecordMeasure::WaitOf(TaskKind::Io))
}

/// The totals are those of the samples.
pub open spec fn totals_of_samples(t: SampleTotals, samples: Seq<MonitorSample>) -> bool {
    &&& t.sample_count == samples.len()
    &&& t.cpu_load_sum == sample_total(samples, SampleMeasure::CpuLoad)
    &&& t.busy_workers_sum == sample_total(samples, SampleMeasure::BusyWorkers)
    &&& t.queue_len_sum == sample_total(samples, SampleMeasure::QueueLen)
    &&& t.max_queue_len == longest_queue(samples)
}

/// Adds up the task records of a run: counts per kind, total and longest
/// wait, total turnaround, per-kind total wait, and the average wait and
/// turnaround.
pub fn summarize_records(records: &Vec<TaskRecord>) -> (t: RecordTotals)
    ensures
        totals_of_records(t, records@),
{
    let mut total_wait: u128 = 0;
    let mut total_turnaround: u128 = 0;
    let mut max_wait: u64 = 0;
    let mut cpu_count: usize = 0;
    let mut io_count: usize = 0;
    let mut cpu_wait: u128 = 0;
    let mut io_wait: u128 = 0;
    let ghost s = records@;
    let mut i: usize = 0;
    while i < records.len()
        invariant
            s == records@,
            i <= s.len(),
            total_wait == record_total(s.take(i as int), RecordMeasure::Wait),
            total_turnaround == record_total(s.take(i as int), RecordMeasure::Turnaround),
            max_wait == longest_wait(s.take(i as int)),
            cpu_count == record_total(s.take(i as int), RecordMeasure::CountOf(TaskKind::Cpu)),
            io_count == record_total(s.take(i as int), RecordMeasure::CountOf(TaskKind::Io)),
            cpu_wait == record_total(s.take(i as int), RecordMeasure::WaitOf(TaskKind::Cpu)),
            io_wait == record_total(s.take(i as int), RecordMeasure::WaitOf(TaskKind::Io)),
        decreases s.len() - i,
    {
        let ghost next = s.take(i + 1);
        proof {
            lemma_take_next(s, i as int);
            let n = next.len() as int;
            lemma_record_total_bounded(next, RecordMeasure::Wait, u64::MAX as int);
            lemma_fits_u128(n, record_total(next, RecordMeasure::Wait));
            lemma_record_total_bounded(next, RecordMeasure::Turnaround, u64::MAX as int);
            lemma_fits_u128(n, record_total(next, RecordMeasure::Turnaround));
            lemma_record_total_bounded(next, RecordMeasure::WaitOf(TaskKind::Cpu), u64::MAX as int);
            lemma_fits_u128(n, record_total(next, RecordMeasure::WaitOf(TaskKind::Cpu)));
            lemma_record_total_bounded(next, RecordMeasure::WaitOf(TaskKind::Io), u64::MAX as int);
            lemma_fits_u128(n, record_total(next, RecordMeasure::WaitOf(TaskKind::Io)));
            lemma_record_total_bounded(next, RecordMeasure::CountOf(TaskKind::Cpu), 1);
            lemma_record_total_bounded(next, RecordMeasure::CountOf(TaskKind::Io), 1);
        }
        let record = records[i];
        total_wait = total_wait + record.wait_ns as u128;
        total_turnaround = total_turnaround + record.turnaround_ns as u128;
        if record.wait_ns > max_wait {
            max_wait = record.wait_ns;
        }
        match record.kind {
            TaskKind::Cpu => {
                cpu_count = cpu_count + 1;
                cpu_wait = cpu_wait + record.wait_ns as u128;
            },
            TaskKind::Io => {
                io_count = io_count + 1;
                io_wait = io_wait + record.wait_ns as u128;
            },
        }
        i = i + 1;
    }
    proof {
        assert(s.take(s.len() as int) =~= s);
    }
    let count = records.len();
    RecordTotals {
        total_tasks_completed: count,
        total_wait_ns: total_wait,
        total_turnaround_ns: total_turnaround,
        max_wait_ns: max_wait,
        average_wait_ns: divide_duration(total_wait, count),
        average_turnaround_ns: divide_duration(total_turnaround, count),
        cpu_tasks_completed: cpu_count,
        io_tasks_completed: io_count,
        cpu_wait_sum_ns: cpu_wait,
        io_wait_sum_ns: io_wait,
    }
}

/// Adds up the monitor samples of a run: their number, the sums of the CPU
/// load, of the busy workers and of the queue length, and the longest queue.
pub fn summarize_samples(samples: &Vec<MonitorSample>) -> (t: SampleTotals)
    ensures
        totals_of_samples(t, samples@),
{
    let mut load_sum: u128 = 0;
    let mut busy_sum: u128 = 0;
    let mut queue_sum: u128 = 0;
    let mut max_queue: usize = 0;
    let ghost s = samples@;
    let mut i: usize = 0;
    while i < samples.len()
        invariant
            s == samples@,
            i <= s.len(),
            load_sum == sample_total(s.take(i as int), SampleMeasure::CpuLoad),
            busy_sum == sample_total(s.take(i as int), SampleMeasure::BusyWorkers),
            queue_sum == sample_total(s.take(i as int), SampleMeasure::QueueLen),
            max_queue == longest_queue(s.take(i as int)),
        decreases s.len() - i,
    {
        let ghost next = s.take(i + 1);
        proof {
            lemma_take_next(s, i as int);
            let n = next.len() as int;
            lemma_sample_total_bounded(next, SampleMeasure::CpuLoad);
            lemma_fits_u128(n, sample_total(next, SampleMeasure::CpuLoad));
            lemma_sample_total_bounded(next, SampleMeasure::BusyWorkers);
            lemma_fits_u128(n, sample_total(next, SampleMeasure::BusyWorkers));
            lemma_sample_total_bounded(next, SampleMeasure::QueueLen);
            lemma_fits_u128(n, sample_total(next, SampleMeasure::QueueLen));
        }
        let sample = samples[i];
        load_sum = load_sum + sample.cpu_load as u128;
        busy_sum = busy_sum + sample.busy_workers as u128;
        queue_sum = queue_sum + sample.queue_len as u128;
        if sample.queue_len > max_queue {
            max_queue = sample.queue_len;
        }
        i = i + 1;
    }
    proof {
        assert(s.take(s.len() as int) =~= s);
    }
    SampleTotals {
        sample_count: samples.len(),
        cpu_load_sum: load_sum,
        busy_workers_sum: busy_sum,
        queue_len_sum: queue_sum,
        max_queue_len: max_queue,
    }
}

/// The statistics of a run that whole numbers hold exactly, from what the
/// workers recorded and what the monitor sampled.
pub fn summarize_run(collector: &CollectorState, samples: &Vec<MonitorSample>) -> (t: RunTotals)
    ensures
        totals_of_records(t.records, collector.records@),
        totals_of_samples(t.samples, samples@),
{
    RunTotals { records: summarize_records(&collector.records), samples: summarize_samples(samples) }
}

} // verus!
