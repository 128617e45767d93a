//! Optimization-study harness: configuration design, pathfinder selection,
//! build matrix, measurement parsing and statistics, and the job ledger.

pub mod config;
pub mod generator;
pub mod text;
pub mod pathfinder;
pub mod build_matrix;
pub mod scheduler;
pub mod report;
pub mod measurement;
pub mod workloads;
pub mod sorting;
pub mod category;

use vstd::prelude::*;

verus! {

/// Version of this harness library.
pub const VERSION: &'static str = "0.1.0";

} // verus!
