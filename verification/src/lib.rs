//! A storage benchmark core: workload description, offset patterns, the
//! per-worker submit/reap state machine and the aggregation of its counters.

pub mod config;
pub mod io;
pub mod monitor;
pub mod optimizer;
pub mod text;
