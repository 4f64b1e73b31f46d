//! Properties that hold across the operations of the library.
use crate::scheduler::{
    arrivals, front_fits, initial_dispatcher, is_cpu_reserved, queue_of,
    DispatchEvent, DispatcherView,
};
use crate::state::{load_after_finish, load_after_start, MonitorSample, SharedState, TaskRecord};
use crate::summary::{
    average, longest_queue, longest_wait, record_measure, record_total, sample_measure, sample_total,
    totals_of_records, totals_of_samples, RecordMeasure, RecordTotals, SampleMeasure,
    SampleTotals,
};
use crate::task::{CPU_BUDGET_PCT, ExperimentConfig, Policy, Task, TaskKind, WorkloadKind};
use crate::workload::{io_chance, previous_arrival, well_drawn};
use vstd::prelude::*;
use vstd::multiset::Multiset;
use vstd::seq_lib::{lemma_multiset_commutative, to_multiset_remove};

verus! {

/// The dispatcher never starts a task that does not fit in what the running
/// tasks leave of the CPU budget.
pub proof fn law_dispatch_respects_cpu_budget(v: DispatcherView, load: int)
    ensures
        match v.dispatch(load).1 {
            Some((_w, t)) => load + t.cpu_cost_pct <= 100,
            None => true,
        },
{
}

/// Taking the front of a sequence and putting it back gives the same multiset.
proof fn lemma_drop_first_multiset(s: Seq<Task>)
    requires
        s.len() > 0,
    ensures
        s.to_multiset() == s.drop_first().to_multiset().insert(s[0]),
{
    broadcast use vstd::multiset::group_multiset_axioms;

    to_multiset_remove(s, 0);
    assert(s.remove(0) =~= s.drop_first());
    assert(s.to_multiset().count(s[0]) > 0) by {
        broadcast use vstd::seq_lib::group_to_multiset_ensures;

        assert(s.contains(s[0]));
    }
    assert(s.to_multiset() =~= s.to_multiset().remove(s[0]).insert(s[0]));
}

/// A dispatch decision neither loses nor duplicates a task: the tasks that
/// waited before are those that wait after, plus the task handed out, if any;
/// when nothing is handed out, nothing changes.
pub proof fn law_dispatch_conserves_tasks(v: DispatcherView, load: int)
    ensures
        ({
            let (next, handed) = v.dispatch(load);
            match handed {
                Some((_w, t)) => v.queued().to_multiset() == next.queued().to_multiset().insert(t),
                None => next == v,
            }
        }),
{
    broadcast use vstd::multiset::group_multiset_axioms;

    let (next, handed) = v.dispatch(load);
    if let Some((_w, t)) = handed {
        lemma_multiset_commutative(v.fifo + v.cpu, v.io);
        lemma_multiset_commutative(v.fifo, v.cpu);
        lemma_multiset_commutative(next.fifo + next.cpu, next.io);
        lemma_multiset_commutative(next.fifo, next.cpu);
        if v.fifo != next.fifo {
            lemma_drop_first_multiset(v.fifo);
        } else if v.cpu != next.cpu {
            lemma_drop_first_multiset(v.cpu);
        } else {
            lemma_drop_first_multiset(v.io);
        }
        assert(v.queued().to_multiset() =~= next.queued().to_multiset().insert(t));
    }
}

/// A worker that is handed a task is the first idle worker, and it leaves the
/// line; every other idle worker stays, in order.
pub proof fn law_dispatch_takes_first_idle_worker(v: DispatcherView, load: int)
    ensures
        ({
            let (next, handed) = v.dispatch(load);
            match handed {
                Some((w, _t)) => v.available.len() > 0 && w == v.available[0]
                    && next.available == v.available.drop_first(),
                None => next.available == v.available,
            }
        }),
{
}

/// Under the FIFO policy only the front of the one queue can leave it: when
/// it does not fit, no task starts, even if a later one would fit.
pub proof fn law_fifo_serves_front_only(v: DispatcherView, load: int)
    requires
        v.policy == Policy::Fifo,
    ensures
        match v.dispatch(load).1 {
            Some((_w, t)) => v.fifo.len() > 0 && load + v.fifo[0].cpu_cost_pct <= 100 && t
                == v.fifo[0],
            None => true,
        },
        !(v.fifo.len() > 0 && load + v.fifo[0].cpu_cost_pct <= 100) ==> v.dispatch(load).1 is None,
{
}

/// Under the optimized policy each class leaves in arrival order: the task
/// handed out is the front of the queue of its kind.
pub proof fn law_optimized_serves_each_class_in_order(v: DispatcherView, load: int)
    requires
        v.wf(),
        v.policy == Policy::Optimized,
    ensures
        match v.dispatch(load).1 {
            Some((_w, t)) => queue_of(t.kind, v.cpu, v.io).len() > 0 && t == queue_of(
                t.kind,
                v.cpu,
                v.io,
            )[0],
            None => true,
        },
{
}

/// Under the optimized policy, until the workers are shut down, a reserved
/// worker takes the front CPU task when it fits, and any other worker takes
/// the front I/O task when it fits.
pub proof fn law_optimized_first_choice(v: DispatcherView, load: int)
    requires
        v.wf(),
        v.policy == Policy::Optimized,
        !v.shut_down,
        v.available.len() > 0,
    ensures
        ({
            let w = v.available[0];
            let reserved = is_cpu_reserved(w, v.worker_count, v.cpu_reserved_workers);
            &&& reserved && front_fits(v.cpu, load) ==> v.dispatch(load).1 == Some((w, v.cpu[0]))
            &&& !reserved && front_fits(v.io, load) ==> v.dispatch(load).1 == Some((w, v.io[0]))
        }),
{
}

/// Until the workers are shut down, the dispatcher does not leave a worker
/// idle while a task it may start fits: under FIFO that is the front of the
/// queue, under the optimized policy the front of either queue.
pub proof fn law_dispatch_is_work_conserving(v: DispatcherView, load: int)
    requires
        !v.shut_down,
        v.available.len() > 0,
        match v.policy {
            Policy::Fifo => v.fifo.len() > 0 && load + v.fifo[0].cpu_cost_pct <= 100,
            Policy::Optimized => (v.cpu.len() > 0 && load + v.cpu[0].cpu_cost_pct <= 100) || (
            v.io.len() > 0 && load + v.io[0].cpu_cost_pct <= 100),
        },
    ensures
        v.dispatch(load).1 is Some,
{
}

/// Every operation keeps the routing invariant: CPU tasks wait only in the
/// CPU queue and I/O tasks only in the I/O queue under the optimized policy,
/// and the FIFO policy uses its one queue only.
pub proof fn law_operations_keep_routing(
    v: DispatcherView,
    task: Task,
    worker_id: usize,
    load: int,
)
    requires
        v.wf(),
    ensures
        v.receive(task).wf(),
        v.worker_ready(worker_id).wf(),
        v.generator_finished().wf(),
        v.dispatch(load).0.wf(),
{
    let (next, _handed) = v.dispatch(load);
    if v.policy == Policy::Optimized {
        assert forall|i: int| 0 <= i < next.cpu.len() implies #[trigger] next.cpu[i].kind
            == TaskKind::Cpu by {
            if next.cpu != v.cpu {
                assert(next.cpu[i] == v.cpu[i + 1]);
            }
        }
        assert forall|i: int| 0 <= i < next.io.len() implies #[trigger] next.io[i].kind
            == TaskKind::Io by {
            if next.io != v.io {
                assert(next.io[i] == v.io[i + 1]);
            }
        }
        let r = v.receive(task);
        assert forall|i: int| 0 <= i < r.cpu.len() implies #[trigger] r.cpu[i].kind
            == TaskKind::Cpu by {
            if i < v.cpu.len() {
                assert(r.cpu[i] == v.cpu[i]);
            }
        }
        assert forall|i: int| 0 <= i < r.io.len() implies #[trigger] r.io[i].kind
            == TaskKind::Io by {
            if i < v.io.len() {
                assert(r.io[i] == v.io[i]);
            }
        }
    }
}


/// The simulated CPU load never exceeds the budget: starting a task caps the
/// load at the budget, and finishing one only lowers it.
pub proof fn law_load_stays_within_budget(s: SharedState, cpu_cost_pct: u64)
    requires
        s.current_cpu_load <= 100,
    ensures
        s.after_dispatch(cpu_cost_pct).current_cpu_load <= 100,
        s.after_completion(cpu_cost_pct).current_cpu_load <= 100,
{
}

/// Finishing a task undoes starting it: when the task fit in the budget, the
/// load and the number of busy workers return to what they were, and nothing
/// else changes.
pub proof fn law_completion_undoes_dispatch(s: SharedState, cpu_cost_pct: u64)
    requires
        s.busy_workers < usize::MAX,
        s.current_cpu_load + cpu_cost_pct <= CPU_BUDGET_PCT,
    ensures
        s.after_dispatch(cpu_cost_pct).after_completion(cpu_cost_pct) == s,
{
    assert(load_after_finish(load_after_start(s.current_cpu_load, cpu_cost_pct), cpu_cost_pct)
        == s.current_cpu_load);
}

/// Every completed task is either CPU-bound or I/O-bound: the two counts add
/// up to the number of records, and the two per-kind wait sums to the total wait.
pub proof fn law_completions_split_by_kind(records: Seq<TaskRecord>)
    ensures
        record_total(records, RecordMeasure::CountOf(TaskKind::Cpu)) + record_total(
            records,
            RecordMeasure::CountOf(TaskKind::Io),
        ) == records.len(),
        record_total(records, RecordMeasure::WaitOf(TaskKind::Cpu)) + record_total(
            records,
            RecordMeasure::WaitOf(TaskKind::Io),
        ) == record_total(records, RecordMeasure::Wait),
    decreases records.len(),
{
    if records.len() > 0 {
        law_completions_split_by_kind(records.drop_last());
    }
}

/// The longest wait is at least every recorded wait, and it is one of them
/// when any task completed.
pub proof fn law_longest_wait_is_the_maximum(records: Seq<TaskRecord>)
    ensures
        forall|i: int| 0 <= i < records.len() ==> #[trigger] records[i].wait_ns <= longest_wait(records),
        records.len() > 0 ==> exists|i: int|
            0 <= i < records.len() && #[trigger] records[i].wait_ns == longest_wait(records),
    decreases records.len(),
{
    if records.len() > 0 {
        let rest = records.drop_last();
        law_longest_wait_is_the_maximum(rest);
        assert forall|i: int| 0 <= i < records.len() implies #[trigger] records[i].wait_ns
            <= longest_wait(records) by {
            if i < rest.len() {
                assert(records[i] == rest[i]);
            }
        }
        if records.last().wait_ns > longest_wait(rest) {
            assert(records[records.len() - 1].wait_ns == longest_wait(records));
        } else if rest.len() > 0 {
            let j = choose|j: int| 0 <= j < rest.len() && #[trigger] rest[j].wait_ns == longest_wait(rest);
            assert(records[j] == rest[j]);
            assert(records[j].wait_ns == longest_wait(records));
        } else {
            assert(records[0].wait_ns == longest_wait(records));
        }
    }
}

/// The total wait is at most the longest wait for every task.
proof fn lemma_total_wait_below_longest(records: Seq<TaskRecord>)
    ensures
        record_total(records, RecordMeasure::Wait) <= records.len() * longest_wait(records),
    decreases records.len(),
{
    if records.len() > 0 {
        let rest = records.drop_last();
        lemma_total_wait_below_longest(rest);
        let m = longest_wait(records) as int;
        assert(longest_wait(rest) <= m);
        assert(rest.len() * longest_wait(rest) <= rest.len() * m) by (nonlinear_arith)
            requires
                longest_wait(rest) <= m,
                0 <= rest.len(),
        ;
        assert(rest.len() * m + m == records.len() * m) by (nonlinear_arith)
            requires
                rest.len() + 1 == records.len(),
        ;
    }
}

/// The average wait, even rounded up, never exceeds the longest wait.
pub proof fn law_average_wait_within_longest(records: Seq<TaskRecord>)
    ensures
        average(record_total(records, RecordMeasure::Wait), records.len() as int) <= longest_wait(
            records,
        ),
{
    lemma_total_wait_below_longest(records);
    if records.len() > 0 {
        let n = records.len() as int;
        let t = record_total(records, RecordMeasure::Wait);
        let m = longest_wait(records) as int;
        assert(average(t, n) <= m) by (nonlinear_arith)
            requires
                n > 0,
                0 <= m,
                t <= n * m,
                average(t, n) == (if 2 * (t % n) >= n {
                    t / n + 1
                } else {
                    t / n
                }),
        ;
    }
}

/// The longest queue is at least every sampled queue length.
pub proof fn law_longest_queue_bounds_samples(samples: Seq<MonitorSample>)
    ensures
        forall|i: int| 0 <= i < samples.len() ==> #[trigger] samples[i].queue_len <= longest_queue(samples),
    decreases samples.len(),
{
    if samples.len() > 0 {
        let rest = samples.drop_last();
        law_longest_queue_bounds_samples(rest);
        assert forall|i: int| 0 <= i < samples.len() implies #[trigger] samples[i].queue_len
            <= longest_queue(samples) by {
            if i < rest.len() {
                assert(samples[i] == rest[i]);
            }
        }
    }
}

/// Generated tasks arrive in id order: no task is due before one with a
/// smaller id.
pub proof fn law_arrivals_follow_ids(config: ExperimentConfig, tasks: Seq<Task>)
    requires
        forall|i: int| 0 <= i < tasks.len() ==> #[trigger] well_drawn(config, tasks, i),
    ensures
        forall|i: int, j: int|
            0 <= i <= j < tasks.len() ==> tasks[i].arrival_offset_ms <= tasks[j].arrival_offset_ms,
    decreases tasks.len(),
{
    if tasks.len() > 0 {
        let rest = tasks.drop_last();
        assert forall|i: int| 0 <= i < rest.len() implies #[trigger] well_drawn(config, rest, i) by {
            assert(well_drawn(config, tasks, i));
            assert(rest[i] == tasks[i]);
            if i > 0 {
                assert(rest[i - 1] == tasks[i - 1]);
            }
        }
        law_arrivals_follow_ids(config, rest);
        let last = tasks.len() - 1;
        assert(well_drawn(config, tasks, last));
        assert forall|i: int, j: int|
            0 <= i <= j < tasks.len() implies tasks[i].arrival_offset_ms
            <= tasks[j].arrival_offset_ms by {
            if j < last {
                assert(rest[i] == tasks[i] && rest[j] == tasks[j]);
            } else if i < last {
                assert(rest[i] == tasks[i]);
                assert(rest[last - 1] == tasks[last - 1]);
            }
        }
    }
}


/// Once the workers are shut down, no task is handed out and nothing changes.
pub proof fn law_no_dispatch_after_shutdown(v: DispatcherView, load: int)
    ensures
        v.shutdown().dispatch(load) == (v.shutdown(), None::<(usize, Task)>),
{
}

/// An arriving task joins the waiting tasks, and nothing else does.
proof fn lemma_receive_adds_task(v: DispatcherView, task: Task)
    ensures
        v.receive(task).queued().to_multiset() == v.queued().to_multiset().insert(task),
{
    broadcast use vstd::multiset::group_multiset_axioms;
    broadcast use vstd::seq_lib::group_to_multiset_ensures;

    let r = v.receive(task);
    lemma_multiset_commutative(v.fifo + v.cpu, v.io);
    lemma_multiset_commutative(v.fifo, v.cpu);
    lemma_multiset_commutative(r.fifo + r.cpu, r.io);
    lemma_multiset_commutative(r.fifo, r.cpu);
    assert(r.queued().to_multiset() =~= v.queued().to_multiset().insert(task));
}

/// With no queue holding anything, nothing waits.
proof fn lemma_empty_queues_hold_nothing(v: DispatcherView)
    requires
        v.queues_empty(),
    ensures
        v.queued().to_multiset() == Multiset::<Task>::empty(),
{
    broadcast use vstd::multiset::group_multiset_axioms;
    broadcast use vstd::seq_lib::group_to_multiset_ensures;

    assert(v.queued() =~= Seq::<Task>::empty());
    assert(v.queued().to_multiset().len() == 0);
    assert(v.queued().to_multiset() =~= Multiset::<Task>::empty());
}

/// Over any sequence of events, no task is lost or duplicated: what waited
/// at the start and what arrived is what waits at the end and what was
/// handed out. So when the queues are empty at both ends, every task that
/// arrived was handed out exactly once.
pub proof fn law_run_conserves_tasks(v: DispatcherView, events: Seq<DispatchEvent>)
    ensures
        ({
            let (end, handed) = v.run(events);
            v.queued().to_multiset().add(arrivals(events).to_multiset()) == end.queued().to_multiset().add(
                handed.to_multiset(),
            )
        }),
        ({
            let (end, handed) = v.run(events);
            v.queues_empty() && end.queues_empty() ==> arrivals(events).to_multiset()
                == handed.to_multiset()
        }),
    decreases events.len(),
{
    broadcast use vstd::multiset::group_multiset_axioms;
    broadcast use vstd::seq_lib::group_to_multiset_ensures;

    let (end, handed) = v.run(events);
    if events.len() == 0 {
        assert(arrivals(events) =~= Seq::<Task>::empty());
        assert(arrivals(events).to_multiset() =~= Multiset::<Task>::empty());
        assert(handed.to_multiset() =~= Multiset::<Task>::empty());
    } else {
        let rest = events.drop_last();
        law_run_conserves_tasks(v, rest);
        let (before, handed0) = v.run(rest);
        let a0 = arrivals(rest);
        assert(v.queued().to_multiset().add(a0.to_multiset()) == before.queued().to_multiset().add(
            handed0.to_multiset(),
        ));
        match events.last() {
            DispatchEvent::WorkerReady(_w) => {
                assert(end.queued() == before.queued());
                assert(handed == handed0);
                assert(arrivals(events) == a0);
            },
            DispatchEvent::GeneratorDone => {
                assert(end.queued() == before.queued());
                assert(handed == handed0);
                assert(arrivals(events) == a0);
            },
            DispatchEvent::TaskArrived(t) => {
                lemma_receive_adds_task(before, t);
                assert(handed == handed0);
                assert(arrivals(events) == a0.push(t));
                assert(end == before.receive(t));
                assert(arrivals(events).to_multiset() == a0.to_multiset().insert(t));
                assert(end.queued().to_multiset() == before.queued().to_multiset().insert(t));
                let q0 = v.queued().to_multiset();
                let m_a = a0.to_multiset();
                let m_b = before.queued().to_multiset();
                let m_h = handed0.to_multiset();
                assert forall|x: Task| #[trigger] q0.add(m_a.insert(t)).count(x) == m_b.insert(t).add(
                    m_h,
                ).count(x) by {
                    assert(q0.add(m_a).count(x) == m_b.add(m_h).count(x));
                }
                assert(q0.add(m_a.insert(t)) =~= m_b.insert(t).add(m_h));
                assert(v.queued().to_multiset().add(arrivals(events).to_multiset())
                    =~= end.queued().to_multiset().add(handed.to_multiset()));
            },
            DispatchEvent::Dispatch(load) => {
                law_dispatch_conserves_tasks(before, load);
                assert(arrivals(events) == a0);
                match before.dispatch(load).1 {
                    Some((_w, t)) => {
                        assert(handed == handed0.push(t));
                        assert(v.queued().to_multiset().add(arrivals(events).to_multiset())
                            =~= end.queued().to_multiset().add(handed.to_multiset()));
                    },
                    None => {
                        assert(handed == handed0);
                    },
                }
            },
        }
    }
    if v.queues_empty() && end.queues_empty() {
        lemma_empty_queues_hold_nothing(v);
        lemma_empty_queues_hold_nothing(end);
        assert(arrivals(events).to_multiset() =~= Multiset::<Task>::empty().add(
            arrivals(events).to_multiset(),
        ));
        assert(handed.to_multiset() =~= Multiset::<Task>::empty().add(handed.to_multiset()));
    }
}


/// The front of each non-empty queue is among the waiting tasks.
proof fn lemma_fronts_are_queued(v: DispatcherView)
    ensures
        v.fifo.len() > 0 ==> v.queued().contains(v.fifo[0]),
        v.cpu.len() > 0 ==> v.queued().contains(v.cpu[0]),
        v.io.len() > 0 ==> v.queued().contains(v.io[0]),
{
    if v.fifo.len() > 0 {
        assert(v.queued()[0] == v.fifo[0]);
    }
    if v.cpu.len() > 0 {
        assert(v.queued()[v.fifo.len() as int] == v.cpu[0]);
    }
    if v.io.len() > 0 {
        assert(v.queued()[(v.fifo.len() + v.cpu.len()) as int] == v.io[0]);
    }
}

/// The dispatcher does not get stuck: with nothing shut down, every worker of
/// a non-empty pool idle, and every waiting task small enough to run on an
/// idle machine, serving the queues with workers that finish and report back
/// before the next decision empties every queue within as many rounds as
/// tasks wait, leaving every worker idle; when the generator is done, the run
/// is then finished, which is when the dispatcher's loop ends.
pub proof fn law_idle_pool_drains_queues(v: DispatcherView)
    requires
        v.wf(),
        !v.shut_down,
        v.worker_count >= 1,
        v.available.len() == v.worker_count,
        v.costs_fit(),
    ensures
        ({
            let d = v.drain(v.queued().len());
            &&& d.queues_empty()
            &&& d.available.len() == v.worker_count
            &&& d.worker_count == v.worker_count
            &&& d.generator_done == v.generator_done
            &&& (v.generator_done ==> d.finished())
        }),
    decreases v.queued().len(),
{
    broadcast use vstd::multiset::group_multiset_axioms;
    broadcast use vstd::seq_lib::group_to_multiset_ensures;

    if v.queued().len() > 0 {
        lemma_fronts_are_queued(v);
        if v.policy == Policy::Optimized {
            law_dispatch_is_work_conserving(v, 0);
        } else {
            assert(v.fifo.len() > 0);
            assert(v.queued().contains(v.fifo[0]));
            law_dispatch_is_work_conserving(v, 0);
        }
        let (next, handed) = v.dispatch(0);
        let (w, t) = handed.unwrap();
        law_dispatch_conserves_tasks(v, 0);
        law_operations_keep_routing(v, t, w, 0);
        law_operations_keep_routing(next, t, w, 0);
        let n2 = next.worker_ready(w);
        assert(v.queued().to_multiset().len() == next.queued().to_multiset().len() + 1);
        assert forall|x: Task| #[trigger] n2.queued().contains(x) implies x.cpu_cost_pct
            <= CPU_BUDGET_PCT by {
            assert(n2.queued() == next.queued());
            assert(next.queued().to_multiset().count(x) > 0);
            assert(v.queued().to_multiset().count(x) > 0);
            assert(v.queued().contains(x));
        }
        law_idle_pool_drains_queues(n2);
        assert(v.drain(v.queued().len()) == n2.drain(n2.queued().len()));
    } else {
        assert(v.drain(0) == v);
    }
}


/// Taking one record out of the list takes its share out of every total,
/// and the longest wait is the longer of its wait and the rest's longest.
proof fn lemma_totals_without(s: Seq<TaskRecord>, i: int)
    requires
        0 <= i < s.len(),
    ensures
        forall|m: RecordMeasure| #[trigger]
            record_total(s, m) == record_total(s.remove(i), m) + record_measure(s[i], m),
        longest_wait(s) == (if s[i].wait_ns > longest_wait(s.remove(i)) {
            s[i].wait_ns
        } else {
            longest_wait(s.remove(i))
        }),
    decreases s.len(),
{
    if i == s.len() - 1 {
        assert(s.remove(i) =~= s.drop_last());
    } else {
        let r = s.drop_last();
        lemma_totals_without(r, i);
        assert(s.remove(i).drop_last() =~= r.remove(i));
        assert(s.remove(i).last() == s.last());
        assert(r[i] == s[i]);
        assert forall|m: RecordMeasure| #[trigger] record_total(s, m) == record_total(s.remove(i), m)
            + record_measure(s[i], m) by {
            assert(record_total(r, m) == record_total(r.remove(i), m) + record_measure(r[i], m));
        }
    }
}

/// Records in any order give the same totals and the same longest wait.
proof fn lemma_totals_ignore_order(s1: Seq<TaskRecord>, s2: Seq<TaskRecord>)
    requires
        s1.to_multiset() == s2.to_multiset(),
    ensures
        s1.len() == s2.len(),
        forall|m: RecordMeasure| #[trigger] record_total(s1, m) == record_total(s2, m),
        longest_wait(s1) == longest_wait(s2),
    decreases s1.len(),
{
    broadcast use vstd::multiset::group_multiset_axioms;
    broadcast use vstd::seq_lib::group_to_multiset_ensures;

    vstd::seq_lib::to_multiset_len(s1);
    vstd::seq_lib::to_multiset_len(s2);
    if s1.len() > 0 {
        let last = (s1.len() - 1) as int;
        let x = s1[last];
        assert(s1.contains(x));
        assert(s2.to_multiset().count(x) > 0);
        assert(s2.contains(x));
        let j = choose|j: int| 0 <= j < s2.len() && s2[j] == x;
        let r1 = s1.drop_last();
        let r2 = s2.remove(j);
        assert(s1.remove(last) =~= r1);
        assert(r1.to_multiset() == s1.to_multiset().remove(x));
        assert(r2.to_multiset() == s2.to_multiset().remove(x));
        lemma_totals_ignore_order(r1, r2);
        lemma_totals_without(s1, last);
        lemma_totals_without(s2, j);
        assert forall|m: RecordMeasure| #[trigger] record_total(s1, m) == record_total(s2, m) by {
            assert(record_total(s1, m) == record_total(s1.remove(last), m) + record_measure(s1[last], m));
            assert(record_total(s2, m) == record_total(s2.remove(j), m) + record_measure(s2[j], m));
            assert(record_total(r1, m) == record_total(r2, m));
        }
    } else {
        assert(s2.len() == 0);
    }
}

/// The statistics of a run do not depend on the order in which the tasks
/// finished: the same records in another order give the same totals, counts,
/// averages and longest wait.
pub proof fn law_summary_ignores_record_order(
    r1: Seq<TaskRecord>,
    r2: Seq<TaskRecord>,
    t1: RecordTotals,
    t2: RecordTotals,
)
    requires
        r1.to_multiset() == r2.to_multiset(),
        totals_of_records(t1, r1),
        totals_of_records(t2, r2),
    ensures
        t1 == t2,
{
    lemma_totals_ignore_order(r1, r2);
    assert(record_total(r1, RecordMeasure::Wait) == record_total(r2, RecordMeasure::Wait));
    assert(record_total(r1, RecordMeasure::Turnaround) == record_total(r2, RecordMeasure::Turnaround));
    assert(record_total(r1, RecordMeasure::CountOf(TaskKind::Cpu)) == record_total(
        r2,
        RecordMeasure::CountOf(TaskKind::Cpu),
    ));
    assert(record_total(r1, RecordMeasure::CountOf(TaskKind::Io)) == record_total(
        r2,
        RecordMeasure::CountOf(TaskKind::Io),
    ));
    assert(record_total(r1, RecordMeasure::WaitOf(TaskKind::Cpu)) == record_total(
        r2,
        RecordMeasure::WaitOf(TaskKind::Cpu),
    ));
    assert(record_total(r1, RecordMeasure::WaitOf(TaskKind::Io)) == record_total(
        r2,
        RecordMeasure::WaitOf(TaskKind::Io),
    ));
}


/// What the dispatcher publishes of its queues tells the truth: the total is
/// the number of waiting tasks, the FIFO policy shows empty CPU and I/O
/// queues, and a finished run shows every queue empty.
pub proof fn law_published_queue_lengths(s: SharedState, d: DispatcherView)
    requires
        d.wf(),
        d.fifo.len() + d.cpu.len() + d.io.len() <= usize::MAX,
    ensures
        ({
            let p = s.with_queue_lengths(d.fifo.len() as usize, d.cpu.len() as usize, d.io.len() as usize);
            &&& p.total_queue_len == d.queued().len()
            &&& p.cpu_queue_len == d.cpu.len()
            &&& p.io_queue_len == d.io.len()
            &&& (d.policy == Policy::Fifo ==> p.cpu_queue_len == 0 && p.io_queue_len == 0)
            &&& (d.finished() ==> p.total_queue_len == 0 && p.cpu_queue_len == 0
                && p.io_queue_len == 0)
        }),
{
}

/// The tasks of this kind, in order.
pub open spec fn of_kind(tasks: Seq<Task>, kind: TaskKind) -> Seq<Task>
    decreases tasks.len(),
{
    if tasks.len() == 0 {
        Seq::empty()
    } else if tasks.last().kind == kind {
        of_kind(tasks.drop_last(), kind).push(tasks.last())
    } else {
        of_kind(tasks.drop_last(), kind)
    }
}

proof fn lemma_of_kind_push(tasks: Seq<Task>, t: Task, kind: TaskKind)
    ensures
        of_kind(tasks.push(t), kind) == (if t.kind == kind {
            of_kind(tasks, kind).push(t)
        } else {
            of_kind(tasks, kind)
        }),
{
    assert(tasks.push(t).drop_last() =~= tasks);
}

/// Every sequence of events keeps the dispatcher's policy and its routing
/// invariant.
proof fn lemma_run_keeps_routing(v: DispatcherView, events: Seq<DispatchEvent>)
    requires
        v.wf(),
    ensures
        v.run(events).0.wf(),
        v.run(events).0.policy == v.policy,
    decreases events.len(),
{
    if events.len() > 0 {
        let rest = events.drop_last();
        lemma_run_keeps_routing(v, rest);
        let before = v.run(rest).0;
        let some_task = Task {
            id: 0,
            arrival_offset_ms: 0,
            kind: TaskKind::Cpu,
            duration_ms: 0,
            cpu_cost_pct: 0,
        };
        match events.last() {
            DispatchEvent::WorkerReady(w) => law_operations_keep_routing(before, some_task, w, 0),
            DispatchEvent::TaskArrived(t) => law_operations_keep_routing(before, t, 0, 0),
            DispatchEvent::GeneratorDone => law_operations_keep_routing(before, some_task, 0, 0),
            DispatchEvent::Dispatch(load) => law_operations_keep_routing(before, some_task, 0, load),
        }
    }
}

/// Under the FIFO policy tasks leave in the order they arrived: over any
/// sequence of events, what waited and then arrived is, in order, what was
/// handed out followed by what still waits.
pub proof fn law_fifo_run_keeps_arrival_order(v: DispatcherView, events: Seq<DispatchEvent>)
    requires
        v.wf(),
        v.policy == Policy::Fifo,
    ensures
        v.fifo + arrivals(events) == v.run(events).1 + v.run(events).0.fifo,
    decreases events.len(),
{
    if events.len() == 0 {
        assert(v.fifo + arrivals(events) =~= v.run(events).1 + v.run(events).0.fifo);
    } else {
        let rest = events.drop_last();
        law_fifo_run_keeps_arrival_order(v, rest);
        lemma_run_keeps_routing(v, rest);
        let (before, handed0) = v.run(rest);
        let (end, handed) = v.run(events);
        let a0 = arrivals(rest);
        match events.last() {
            DispatchEvent::TaskArrived(t) => {
                assert(arrivals(events) == a0.push(t));
                assert(end.fifo == before.fifo.push(t));
                assert(v.fifo + arrivals(events) =~= (v.fifo + a0).push(t));
                assert(handed + end.fifo =~= (handed0 + before.fifo).push(t));
            },
            DispatchEvent::Dispatch(load) => {
                assert(arrivals(events) == a0);
                match before.dispatch(load).1 {
                    Some((_w, t)) => {
                        assert(handed == handed0.push(t));
                        assert(end.fifo == before.fifo.drop_first());
                        assert(t == before.fifo[0]);
                        assert(handed + end.fifo =~= handed0 + before.fifo);
                    },
                    None => {},
                }
            },
            _ => {
                assert(arrivals(events) == a0);
            },
        }
    }
}

/// Under the optimized policy each kind of task leaves in the order it
/// arrived: over any sequence of events, the tasks of a kind that waited and
/// then arrived are, in order, those of that kind handed out followed by
/// those that still wait in the kind's queue.
pub proof fn law_optimized_run_keeps_class_order(
    v: DispatcherView,
    events: Seq<DispatchEvent>,
    kind: TaskKind,
)
    requires
        v.wf(),
        v.policy == Policy::Optimized,
    ensures
        queue_of(kind, v.cpu, v.io) + of_kind(arrivals(events), kind) == of_kind(v.run(events).1, kind)
            + queue_of(kind, v.run(events).0.cpu, v.run(events).0.io),
    decreases events.len(),
{
    if events.len() == 0 {
        assert(queue_of(kind, v.cpu, v.io) + of_kind(arrivals(events), kind) =~= of_kind(
            v.run(events).1,
            kind,
        ) + queue_of(kind, v.run(events).0.cpu, v.run(events).0.io));
    } else {
        let rest = events.drop_last();
        law_optimized_run_keeps_class_order(v, rest, kind);
        lemma_run_keeps_routing(v, rest);
        let (before, handed0) = v.run(rest);
        let (end, handed) = v.run(events);
        let a0 = arrivals(rest);
        let q0 = queue_of(kind, before.cpu, before.io);
        let q1 = queue_of(kind, end.cpu, end.io);
        match events.last() {
            DispatchEvent::TaskArrived(t) => {
                assert(arrivals(events) == a0.push(t));
                lemma_of_kind_push(a0, t, kind);
                assert(handed == handed0);
                if t.kind == kind {
                    assert(q1 == q0.push(t));
                    assert(queue_of(kind, v.cpu, v.io) + of_kind(arrivals(events), kind) =~= (
                    queue_of(kind, v.cpu, v.io) + of_kind(a0, kind)).push(t));
                    assert(of_kind(handed, kind) + q1 =~= (of_kind(handed0, kind) + q0).push(t));
                } else {
                    assert(q1 == q0);
                }
            },
            DispatchEvent::Dispatch(load) => {
                assert(arrivals(events) == a0);
                match before.dispatch(load).1 {
                    Some((_w, t)) => {
                        law_optimized_serves_each_class_in_order(before, load);
                        assert(handed == handed0.push(t));
                        lemma_of_kind_push(handed0, t, kind);
                        let tq = queue_of(t.kind, before.cpu, before.io);
                        assert(tq[0].kind == t.kind);
                        if t.kind == kind {
                            assert(q1 == q0.drop_first());
                            assert(of_kind(handed, kind) + q1 =~= of_kind(handed0, kind) + q0);
                        } else {
                            assert(q1 == q0);
                        }
                    },
                    None => {},
                }
            },
            _ => {
                assert(arrivals(events) == a0);
            },
        }
    }
}


/// A fresh dispatcher follows the experiment's policy and pool, with nothing
/// queued, no worker idle yet and nothing finished or shut down; the FIFO
/// policy reserves no worker, the optimized policy reserves two.
pub proof fn law_fresh_dispatcher(config: ExperimentConfig)
    ensures
        ({
            let d = initial_dispatcher(config);
            &&& d.wf()
            &&& d.policy == config.policy
            &&& d.worker_count == config.worker_count
            &&& !d.generator_done
            &&& !d.shut_down
            &&& d.available.len() == 0
            &&& d.queued().len() == 0
            &&& (config.policy == Policy::Fifo ==> d.cpu_reserved_workers == 0)
            &&& (config.policy == Policy::Optimized ==> d.cpu_reserved_workers == 2)
        }),
{
}

/// Under the optimized policy the workers reserved for CPU work are exactly
/// the last two of the pool: when the fronts of both queues fit, the first
/// idle worker takes the front CPU task if it is one of the last two workers
/// (every worker of a pool of at most two), and the front I/O task otherwise.
pub proof fn law_optimized_reserves_last_two_workers(v: DispatcherView, load: int)
    requires
        v.wf(),
        v.policy == Policy::Optimized,
        !v.shut_down,
        v.available.len() > 0,
        v.cpu.len() > 0 && load + v.cpu[0].cpu_cost_pct <= 100,
        v.io.len() > 0 && load + v.io[0].cpu_cost_pct <= 100,
    ensures
        v.available[0] + 2 >= v.worker_count ==> v.dispatch(load).1 == Some((v.available[0], v.cpu[0])),
        v.available[0] + 2 < v.worker_count ==> v.dispatch(load).1 == Some((v.available[0], v.io[0])),
{
}

/// The run is finished only when the generator is done, no task waits, and
/// every worker of the pool is idle; so right after a task is handed out,
/// with its worker busy, the run is not finished.
pub proof fn law_finished_needs_every_worker_idle(v: DispatcherView, load: int)
    ensures
        v.finished() ==> v.generator_done && v.fifo.len() == 0 && v.cpu.len() == 0 && v.io.len()
            == 0 && v.available.len() == v.worker_count,
        v.available.len() <= v.worker_count && v.dispatch(load).1 is Some ==> !v.dispatch(
            load,
        ).0.finished(),
{
}

/// A worker that reports idle joins the end of the idle line, behind every
/// worker already waiting, whichever workers they are; arriving tasks and the
/// generator finishing leave the line alone. So of two workers that report
/// in turn on an empty line, the first one is the one served first.
pub proof fn law_idle_workers_served_in_report_order(
    v: DispatcherView,
    a: usize,
    b: usize,
    task: Task,
    load: int,
)
    ensures
        v.worker_ready(a).available.len() == v.available.len() + 1,
        v.worker_ready(a).available.last() == a,
        forall|i: int|
            0 <= i < v.available.len() ==> #[trigger] v.worker_ready(a).available[i]
                == v.available[i],
        v.receive(task).available == v.available,
        v.generator_finished().available == v.available,
        v.available.len() == 0 ==> v.worker_ready(a).worker_ready(b).available == seq![a, b],
        v.available.len() == 0 ==> match v.worker_ready(a).worker_ready(b).dispatch(load).1 {
            Some((w, _t)) => w == a,
            None => true,
        },
{
    if v.available.len() == 0 {
        assert(v.worker_ready(a).worker_ready(b).available =~= seq![a, b]);
    }
}

proof fn lemma_sample_total_concat(a: Seq<MonitorSample>, b: Seq<MonitorSample>, m: SampleMeasure)
    ensures
        sample_total(a + b, m) == sample_total(a, m) + sample_total(b, m),
        longest_queue(a + b) == (if longest_queue(a) >= longest_queue(b) {
            longest_queue(a)
        } else {
            longest_queue(b)
        }),
    decreases b.len(),
{
    if b.len() == 0 {
        assert(a + b =~= a);
    } else {
        lemma_sample_total_concat(a, b.drop_last(), m);
        assert((a + b).drop_last() =~= a + b.drop_last());
        assert((a + b).last() == b.last());
    }
}

/// The sample totals are made of each sample's own figures: a single sample
/// contributes its total queue length, its busy workers and its CPU load,
/// and its queue length is the longest; the totals of two runs of samples
/// joined together are the sums of their totals, and the longest queue is
/// the longer of the two.
pub proof fn law_sample_totals_add_up(a: Seq<MonitorSample>, b: Seq<MonitorSample>, x: MonitorSample)
    ensures
        sample_total(seq![x], SampleMeasure::QueueLen) == x.queue_len,
        sample_total(seq![x], SampleMeasure::BusyWorkers) == x.busy_workers,
        sample_total(seq![x], SampleMeasure::CpuLoad) == x.cpu_load,
        longest_queue(seq![x]) == x.queue_len,
        forall|m: SampleMeasure| #[trigger] sample_total(a + b, m) == sample_total(a, m) + sample_total(b, m),
        longest_queue(a + b) == (if longest_queue(a) >= longest_queue(b) {
            longest_queue(a)
        } else {
            longest_queue(b)
        }),
{
    let one = seq![x];
    assert(one.last() == x);
    assert forall|m: SampleMeasure| #[trigger] sample_total(one, m) == sample_measure(x, m) by {
        assert(one.drop_last().len() == 0);
        assert(sample_total(one.drop_last(), m) == 0);
    }
    assert(one.drop_last().len() == 0);
    assert(longest_queue(one.drop_last()) == 0);
    assert forall|m: SampleMeasure| #[trigger] sample_total(a + b, m) == sample_total(a, m)
        + sample_total(b, m) by {
        lemma_sample_total_concat(a, b, m);
    }
    lemma_sample_total_concat(a, b, SampleMeasure::QueueLen);
}

/// The longest queue of a run is one of the sampled queue lengths, and none
/// is longer; with no samples it is zero.
pub proof fn law_longest_queue_is_a_sample(samples: Seq<MonitorSample>)
    ensures
        samples.len() > 0 ==> exists|i: int|
            0 <= i < samples.len() && #[trigger] samples[i].queue_len == longest_queue(samples),
        samples.len() == 0 ==> longest_queue(samples) == 0,
    decreases samples.len(),
{
    if samples.len() > 0 {
        let rest = samples.drop_last();
        law_longest_queue_is_a_sample(rest);
        let last = samples.len() - 1;
        if samples.last().queue_len > longest_queue(rest) || rest.len() == 0 {
            assert(samples[last].queue_len == longest_queue(samples));
        } else {
            let j = choose|j: int| 0 <= j < rest.len() && #[trigger] rest[j].queue_len == longest_queue(rest);
            assert(samples[j] == rest[j]);
            assert(samples[j].queue_len == longest_queue(samples));
        }
    }
}

/// What `summarize_samples` reports: the number of samples; for a single
/// sample, its own total queue length, busy workers and CPU load as the sums
/// and its queue length as the longest; the longest queue is a sampled one
/// and no sample's is longer.
pub proof fn law_sample_summary(t: SampleTotals, samples: Seq<MonitorSample>)
    requires
        totals_of_samples(t, samples),
    ensures
        t.sample_count == samples.len(),
        samples.len() == 1 ==> t.queue_len_sum == samples[0].queue_len && t.busy_workers_sum
            == samples[0].busy_workers && t.cpu_load_sum == samples[0].cpu_load
            && t.max_queue_len == samples[0].queue_len,
        samples.len() > 0 ==> exists|i: int|
            0 <= i < samples.len() && #[trigger] samples[i].queue_len == t.max_queue_len,
        forall|i: int| 0 <= i < samples.len() ==> #[trigger] samples[i].queue_len <= t.max_queue_len,
{
    law_longest_queue_is_a_sample(samples);
    law_longest_queue_bounds_samples(samples);
    if samples.len() == 1 {
        law_sample_totals_add_up(samples, samples, samples[0]);
        assert(samples =~= seq![samples[0]]);
    }
}

proof fn lemma_record_total_concat(a: Seq<TaskRecord>, b: Seq<TaskRecord>, m: RecordMeasure)
    ensures
        record_total(a + b, m) == record_total(a, m) + record_total(b, m),
        longest_wait(a + b) == (if longest_wait(a) >= longest_wait(b) {
            longest_wait(a)
        } else {
            longest_wait(b)
        }),
    decreases b.len(),
{
    if b.len() == 0 {
        assert(a + b =~= a);
    } else {
        lemma_record_total_concat(a, b.drop_last(), m);
        assert((a + b).drop_last() =~= a + b.drop_last());
        assert((a + b).last() == b.last());
    }
}

/// The record totals are made of each record's own figures: a single record
/// contributes its wait and turnaround, counts once towards its own kind and
/// not at all towards the other, adds its wait to its own kind's wait, and its
/// wait is the longest; the totals of two runs of records joined together
/// are the sums of their totals, and the longest wait the longer of the two.
pub proof fn law_record_totals_add_up(a: Seq<TaskRecord>, b: Seq<TaskRecord>, x: TaskRecord)
    ensures
        record_total(seq![x], RecordMeasure::Wait) == x.wait_ns,
        record_total(seq![x], RecordMeasure::Turnaround) == x.turnaround_ns,
        record_total(seq![x], RecordMeasure::CountOf(x.kind)) == 1,
        record_total(seq![x], RecordMeasure::CountOf(crate::scheduler::other_kind(x.kind))) == 0,
        record_total(seq![x], RecordMeasure::WaitOf(x.kind)) == x.wait_ns,
        record_total(seq![x], RecordMeasure::WaitOf(crate::scheduler::other_kind(x.kind))) == 0,
        longest_wait(seq![x]) == x.wait_ns,
        forall|m: RecordMeasure| #[trigger] record_total(a + b, m) == record_total(a, m) + record_total(b, m),
        longest_wait(a + b) == (if longest_wait(a) >= longest_wait(b) {
            longest_wait(a)
        } else {
            longest_wait(b)
        }),
{
    let one = seq![x];
    assert(one.last() == x);
    assert forall|m: RecordMeasure| #[trigger] record_total(one, m) == record_measure(x, m) by {
        assert(one.drop_last().len() == 0);
        assert(record_total(one.drop_last(), m) == 0);
    }
    assert(one.drop_last().len() == 0);
    assert(longest_wait(one.drop_last()) == 0);
    assert forall|m: RecordMeasure| #[trigger] record_total(a + b, m) == record_total(a, m)
        + record_total(b, m) by {
        lemma_record_total_concat(a, b, m);
    }
    lemma_record_total_concat(a, b, RecordMeasure::Wait);
}


/// Handing out a task that fits adds exactly its CPU share to the load and
/// one busy worker; finishing a task takes its share off the load (down to
/// zero at most) and one busy worker (down to none at most); neither touches
/// the queue lengths or the done flag.
pub proof fn law_load_bookkeeping(s: SharedState, cpu_cost_pct: u64)
    ensures
        s.current_cpu_load + cpu_cost_pct <= 100 ==> s.after_dispatch(cpu_cost_pct).current_cpu_load
            == s.current_cpu_load + cpu_cost_pct,
        s.current_cpu_load + cpu_cost_pct > 100 ==> s.after_dispatch(cpu_cost_pct).current_cpu_load
            == 100,
        s.busy_workers < usize::MAX ==> s.after_dispatch(cpu_cost_pct).busy_workers == s.busy_workers
            + 1,
        s.current_cpu_load >= cpu_cost_pct ==> s.after_completion(cpu_cost_pct).current_cpu_load
            == s.current_cpu_load - cpu_cost_pct,
        s.current_cpu_load < cpu_cost_pct ==> s.after_completion(cpu_cost_pct).current_cpu_load
            == 0,
        s.busy_workers > 0 ==> s.after_completion(cpu_cost_pct).busy_workers == s.busy_workers - 1,
        s.busy_workers == 0 ==> s.after_completion(cpu_cost_pct).busy_workers == 0,
        s.after_dispatch(cpu_cost_pct).total_queue_len == s.total_queue_len,
        s.after_dispatch(cpu_cost_pct).done == s.done,
        s.after_completion(cpu_cost_pct).total_queue_len == s.total_queue_len,
        s.after_completion(cpu_cost_pct).done == s.done,
{
}

/// An average is the nearest whole number to the exact quotient: it is off
/// by at most half the count, times the count, and halves round up.
pub proof fn law_average_is_nearest(total: int, count: int)
    requires
        count > 0,
    ensures
        -count < 2 * (average(total, count) * count - total) <= count,
{
    let q = total / count;
    let r = total % count;
    assert(total == q * count + r && 0 <= r < count) by (nonlinear_arith)
        requires
            count > 0,
            q == total / count,
            r == total % count,
    ;
    if 2 * r >= count {
        assert((q + 1) * count - total == count - r) by (nonlinear_arith)
            requires
                total == q * count + r,
        ;
    } else {
        assert(q * count - total == -r) by (nonlinear_arith)
            requires
                total == q * count + r,
        ;
    }
}


/// Generated tasks follow the workload: a balanced workload draws its tasks
/// I/O-bound with a 70% chance and a stressed one with 35%; an I/O task holds
/// 10% of the CPU and a CPU task 40%; balanced tasks last 180 to 220 ms,
/// stressed I/O tasks 120 to 240 ms and stressed CPU tasks 240 to 380 ms; in
/// the bursts of a stressed workload (the first 35 of every 100 ids) a task
/// arrives at most 2 ms after the previous one, and otherwise within 6 ms of
/// the base interval.
pub proof fn law_generated_tasks_follow_the_workload(config: ExperimentConfig, tasks: Seq<Task>)
    requires
        forall|i: int| 0 <= i < tasks.len() ==> #[trigger] well_drawn(config, tasks, i),
    ensures
        io_chance(WorkloadKind::Balanced) == 70,
        io_chance(WorkloadKind::Stressed) == 35,
        forall|i: int|
            0 <= i < tasks.len() ==> {
                let t = #[trigger] tasks[i];
                let gap = t.arrival_offset_ms - previous_arrival(tasks, i);
                &&& t.kind == TaskKind::Io ==> t.cpu_cost_pct == 10
                &&& t.kind == TaskKind::Cpu ==> t.cpu_cost_pct == 40
                &&& config.workload == WorkloadKind::Balanced ==> 180 <= t.duration_ms <= 220
                &&& config.workload == WorkloadKind::Stressed && t.kind == TaskKind::Io ==> 120
                    <= t.duration_ms <= 240
                &&& config.workload == WorkloadKind::Stressed && t.kind == TaskKind::Cpu ==> 240
                    <= t.duration_ms <= 380
                &&& config.workload == WorkloadKind::Stressed && i % 100 < 35 ==> 0 <= gap <= 2
                &&& !(config.workload == WorkloadKind::Stressed && i % 100 < 35) ==> config.base_interval_ms
                    - 6 <= gap <= config.base_interval_ms + 6 && 0 <= gap
            },
{
    assert forall|i: int| 0 <= i < tasks.len() implies {
        let t = #[trigger] tasks[i];
        let gap = t.arrival_offset_ms - previous_arrival(tasks, i);
        &&& t.kind == TaskKind::Io ==> t.cpu_cost_pct == 10
        &&& t.kind == TaskKind::Cpu ==> t.cpu_cost_pct == 40
        &&& config.workload == WorkloadKind::Balanced ==> 180 <= t.duration_ms <= 220
        &&& config.workload == WorkloadKind::Stressed && t.kind == TaskKind::Io ==> 120
            <= t.duration_ms <= 240
        &&& config.workload == WorkloadKind::Stressed && t.kind == TaskKind::Cpu ==> 240
            <= t.duration_ms <= 380
        &&& config.workload == WorkloadKind::Stressed && i % 100 < 35 ==> 0 <= gap <= 2
        &&& !(config.workload == WorkloadKind::Stressed && i % 100 < 35) ==> config.base_interval_ms
            - 6 <= gap <= config.base_interval_ms + 6 && 0 <= gap
    } by {
        assert(well_drawn(config, tasks, i));
    }
}

} // verus!
