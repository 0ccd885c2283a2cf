//! The benchmark's I/O side: offset patterns, the worker's submit/reap state
//! machine, and the engine's aggregation.

pub mod device;
pub mod engine;
pub mod laws;
pub mod model;
pub mod patterns;
pub mod worker;

pub use device::Device;
pub use engine::IoEngine;
pub use patterns::IoPattern;
pub use worker::{IoWorker, WorkerStats};
