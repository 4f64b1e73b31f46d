//! A simulated concurrent task dispatcher: the data model of tasks and
//! experiments, the workload generator, the scheduling policies and the
//! dispatcher's decision state machine, the shared run state that workers and
//! the monitor update, and the statistics that summarise a run.
//!
//! Everything that waits, sleeps, spawns threads or prints lives outside this
//! library; it hands plain values in and takes plain values back.
pub mod task;

pub mod rng;

pub mod workload;


pub mod scheduler;

pub mod state;

pub mod summary;

pub mod laws;
