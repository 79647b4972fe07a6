//! A random memory-update benchmark: access-index distributions, the update
//! kernel, progress accounting, the reporting state machine and the
//! residency computation.

pub mod distribution;
pub mod update;
pub mod workload;
pub mod progress;
pub mod report;
pub mod residency;
pub mod pfn;
pub mod sample;
