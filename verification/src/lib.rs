//! Infinity Fabric topology of an eight-module accelerator platform, declared
//! as a directed relational structure, with the workload, partition,
//! throughput and traffic models that are derived from it.
//!
//! Bandwidths are held as whole megabytes per second and ratios as exact
//! fractions or in thousandths. The throughput rates, which are not whole
//! numbers, are rounded to the nearest whole number, and the reports render
//! fractions rounded to a fixed number of decimals (an exact half to the even
//! digit). The reduction factor of the comparison table is rendered as
//! double-precision division of its two beat counts gives it, computed with
//! integers in `binary_float`. Each contract states the rounding it performs.
use vstd::prelude::*;

mod seq_lemmas;
pub mod binary_float;
pub mod text;
pub mod fabric_topology;
pub mod fabric_field;
pub mod fabric_sim;
pub mod sim3a;
pub mod partition_mapping;
pub mod kernel_execution;
pub mod throughput_invariants;
pub mod convergence;
pub mod dependency_bench;
pub mod workload_graph;

verus! {
} // verus!
