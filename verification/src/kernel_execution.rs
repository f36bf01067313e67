//! Execution model of the A, B and R operators on the accelerator platform,
//! and the interface the downstream GPU kernels must meet.
use vstd::prelude::*;
use crate::workload_graph::{COMMUNITY_WORKING_SET_BYTES, HBM3E_BYTES_PER_MODULE, N_OAM_MODULES};
use crate::fabric_field::OAM_MEMORY_BW_MB_S;

verus! {

/// Declared software stack for kernel execution.
pub const ROCM_SOFTWARE_STACK: &'static str = "ROCm 7.0 / HIP";

/// Weights of the reference large language model (70B parameters at 16
/// bits), in bytes.
pub const REFERENCE_LLM_WEIGHT_BYTES: u64 = 140_000_000_000;

/// Inter-module protocol of independent analyses.
pub const INTER_MODULE_PROTOCOL: &'static str = "None required — independent community analyses execute as separate declared Ds with zero inter-module communication";

/// Open condition of the kernel implementation.
pub const KERNEL_OPEN_CONDITION: &'static str = "OC-IF-3: ROCm HIP kernel implementation is a downstream deliverable. This model declares the interface; implementation must match.";

/// Declared execution model of the operators on the platform.
#[derive(Debug, Clone)]
pub struct ExecutionModel {
    /// Number of accelerator modules.
    pub n_modules: usize,
    /// Declared software stack.
    pub software_stack: &'static str,
    /// Declared inter-module protocol for independent analyses.
    pub inter_module_protocol: &'static str,
    /// Whether the declared workload needs inter-module communication.
    pub inter_module_required: bool,
    /// Memory bandwidth of one module, in MB/s.
    pub memory_bandwidth_per_module_mb_s: u64,
    /// Working set of one community analysis, in bytes.
    pub community_working_set_bytes: u64,
    /// Whether the working set stays resident in module memory.
    pub working_set_resident: bool,
    /// Open condition for the kernel implementation.
    pub open_condition: &'static str,
}

/// Interface a downstream GPU kernel must meet.
#[derive(Debug, Clone)]
pub struct HipKernelSpec {
    /// Kernel name.
    pub name: &'static str,
    /// Operator the kernel implements.
    pub operator: &'static str,
    /// Input declaration.
    pub input_declaration: &'static str,
    /// Output declaration.
    pub output_declaration: &'static str,
    /// Memory access pattern.
    pub memory_access_pattern: &'static str,
    /// Whether the kernel needs communication between thread blocks.
    pub requires_inter_block_comm: bool,
}

/// Returns the declared execution model: eight modules on the declared
/// software stack, no inter-module communication, module memory bandwidth,
/// and a working set that stays resident because it is smaller than module
/// memory.
pub fn declare_execution_model() -> (m: ExecutionModel)
    ensures
        m.n_modules == N_OAM_MODULES,
        m.software_stack == ROCM_SOFTWARE_STACK,
        !m.inter_module_required,
        m.memory_bandwidth_per_module_mb_s == OAM_MEMORY_BW_MB_S,
        m.community_working_set_bytes == COMMUNITY_WORKING_SET_BYTES,
        m.working_set_resident == (COMMUNITY_WORKING_SET_BYTES < HBM3E_BYTES_PER_MODULE),
        m.working_set_resident,
        m.inter_module_protocol == INTER_MODULE_PROTOCOL,
        m.open_condition == KERNEL_OPEN_CONDITION,
{
    ExecutionModel {
        n_modules: N_OAM_MODULES,
        software_stack: ROCM_SOFTWARE_STACK,
        inter_module_protocol: INTER_MODULE_PROTOCOL,
        inter_module_required: false,
        memory_bandwidth_per_module_mb_s: OAM_MEMORY_BW_MB_S,
        community_working_set_bytes: COMMUNITY_WORKING_SET_BYTES,
        working_set_resident: COMMUNITY_WORKING_SET_BYTES < HBM3E_BYTES_PER_MODULE,
        open_condition: KERNEL_OPEN_CONDITION,
    }
}

/// Interfaces of the kernels for the A, B and R operators, in that order.
pub open spec fn declared_hip_kernel_specs() -> Seq<HipKernelSpec> {
    seq![
        HipKernelSpec {
            name: "abr_operator_a",
            operator: "A",
            input_declaration: "NodeField: declared observable values at each locus; DeclaredRelations: directed edge list with provenance",
            output_declaration: "EdgeField: directed differences x[source] - x[target] at each declared edge",
            memory_access_pattern: "Sparse gather: reads source and target locus values for each declared edge. Working set = node field + edge list. Resident in HBM3E without eviction.",
            requires_inter_block_comm: false,
        },
        HipKernelSpec {
            name: "abr_operator_b",
            operator: "B",
            input_declaration: "EdgeField: A operator output; DeclaredRelations: successor edge indices",
            output_declaration: "EdgeField: accumulated values g[e] + sum(g[succ(e)])",
            memory_access_pattern: "Sparse gather over successor sets. Terminal edges accumulate nothing. No wraparound. Resident in HBM3E.",
            requires_inter_block_comm: false,
        },
        HipKernelSpec {
            name: "abr_operator_r",
            operator: "R",
            input_declaration: "EdgeField: B operator output; Vec<f64>: rho values per node; DeclaredRelations: successor and predecessor sets",
            output_declaration: "EdgeField: g[e] + rho[src(e)] * (sum_succ - sum_pred)",
            memory_access_pattern: "Sparse gather over successor and predecessor sets. Antisymmetric circulation applied locally. Resident in HBM3E.",
            requires_inter_block_comm: false,
        },
    ]
}

/// Returns the kernel interfaces for the A, B and R operators, in that order;
/// none needs communication between thread blocks.
pub fn declare_hip_kernel_specs() -> (specs: Vec<HipKernelSpec>)
    ensures
        specs@ == declared_hip_kernel_specs(),
        specs@.len() == 3,
        specs@[0].name == "abr_operator_a",
        specs@[0].operator == "A",
        specs@[1].name == "abr_operator_b",
        specs@[1].operator == "B",
        specs@[2].name == "abr_operator_r",
        specs@[2].operator == "R",
        forall|i: int| 0 <= i < 3 ==> !(#[trigger] specs@[i]).requires_inter_block_comm,
{
    let mut specs: Vec<HipKernelSpec> = Vec::new();
    specs.push(
        HipKernelSpec {
            name: "abr_operator_a",
            operator: "A",
            input_declaration: "NodeField: declared observable values at each locus; DeclaredRelations: directed edge list with provenance",
            output_declaration: "EdgeField: directed differences x[source] - x[target] at each declared edge",
            memory_access_pattern: "Sparse gather: reads source and target locus values for each declared edge. Working set = node field + edge list. Resident in HBM3E without eviction.",
            requires_inter_block_comm: false,
        },
    );
    specs.push(
        HipKernelSpec {
            name: "abr_operator_b",
            operator: "B",
            input_declaration: "EdgeField: A operator output; DeclaredRelations: successor edge indices",
            output_declaration: "EdgeField: accumulated values g[e] + sum(g[succ(e)])",
            memory_access_pattern: "Sparse gather over successor sets. Terminal edges accumulate nothing. No wraparound. Resident in HBM3E.",
            requires_inter_block_comm: false,
        },
    );
    specs.push(
        HipKernelSpec {
            name: "abr_operator_r",
            operator: "R",
            input_declaration: "EdgeField: B operator output; Vec<f64>: rho values per node; DeclaredRelations: successor and predecessor sets",
            output_declaration: "EdgeField: g[e] + rho[src(e)] * (sum_succ - sum_pred)",
            memory_access_pattern: "Sparse gather over successor and predecessor sets. Antisymmetric circulation applied locally. Resident in HBM3E.",
            requires_inter_block_comm: false,
        },
    );
    specs
}

/// An exact ratio of two byte counts.
#[derive(Debug, Clone, Copy, PartialEq, Eq, Structural)]
pub struct ExactRatio {
    /// Numerator.
    pub numerator: u64,
    /// Denominator, never zero.
    pub denominator: u64,
}

/// Declared execution advantage: how many times the reference model's weights
/// exceed one analysis's working set, as the exact fraction of the two byte
/// counts (140,000,000,000 / 1,048,576, about 133,514.4).
pub fn declared_execution_advantage() -> (r: ExactRatio)
    ensures
        r.numerator == REFERENCE_LLM_WEIGHT_BYTES,
        r.denominator == COMMUNITY_WORKING_SET_BYTES,
        r.denominator > 0,
{
    ExactRatio { numerator: REFERENCE_LLM_WEIGHT_BYTES, denominator: COMMUNITY_WORKING_SET_BYTES }
}

} // verus!
