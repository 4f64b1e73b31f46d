# task_dispatcher

A simulated concurrent task dispatcher. CPU-bound and I/O-bound tasks arrive
over time, wait in ready queues, and are handed to a fixed pool of workers
under a global CPU budget of 100%. Two scheduling policies are compared: FIFO
over one shared queue, and an optimized policy with separate CPU and I/O
queues in which the last two workers take CPU work first and the others I/O
work first.

Layout:

- `src/` is the verified library, checked by Verus:
  - `task.rs`: tasks, policies, workloads and experiment parameters;
  - `workload.rs`: drawing the tasks of an experiment and the generator's pauses;
  - `rng.rs`: the contracts of the `rand` calls the workload makes, with a
    record of the seed and of every draw asked of the generator;
  - `scheduler.rs`: the policies and the dispatcher's state machine;
  - `state.rs`: the state shared by dispatcher, workers and monitor, and the
    workers' records;
  - `summary.rs`: the exact integer statistics of a run;
  - `laws.rs`: properties that span operations (CPU budget, conservation of
    tasks, queue order, routing, load bookkeeping, statistics).
- `app/main.rs` runs the experiments with threads, channels and timers, and
  prints the results.
- `tests/` exercises the library.

CPU shares are whole percents, durations are whole milliseconds for tasks and
nanoseconds for measured waits.
