//! The full chain from the declared fabric to the derived throughput: each
//! stage is checked in turn, and the chain passes only when every stage does.
use vstd::prelude::*;
use crate::fabric_topology::{declare_fabric_topology, declared_fabric_edge};
use crate::fabric_field::{declare_bandwidth_field, operator_a_fabric, endpoints_within, a_value};
use crate::workload_graph::{declare_lompoc_community_graph, COMMUNITY_WORKING_SET_BYTES};
use crate::partition_mapping::{
    derive_partition_assignment,
    admissibility_check,
    oc_db1_closed,
    PartitionResult,
    lemma_derived_partition_admissible,
};
use crate::kernel_execution::declare_execution_model;
use crate::throughput_invariants::{derive_throughput, ThroughputInvariants, module_bandwidth_bytes_per_s};
use crate::text::{
    decimal,
    fixed_point,
    decimal_text,
    fixed_point_text,
    signed_decimal_text,
    lemma_pow10_small,
    rounded_whole,
    rounded_whole_text,
    REPORT_RULE,
    REPORT_THIN_RULE,
};

verus! {

/// Status of the kernel-to-hardware mapping when the chain passes.
pub const OC_DB1_STATUS: &'static str = "CLOSED — ABR kernel maps to Infinity Fabric topology. Independent community analyses execute at full HBM3E bandwidth with zero fabric traffic. AC-1 through AC-4 satisfied by declared structure.";

/// Status of the throughput derivation when the chain passes.
pub const OC_DB3_STATUS: &'static str = "CLOSED STRUCTURALLY — throughput derived from declared constants. Correspondence requires instrument measurement.";

/// Summary of the four converging layers when the chain passes.
pub const LAYER_SUMMARY: &'static str = "Layer 1 (grid physics) + Layer 2 (compute architecture) + Layer 3 (rack declaration) + Layer 4 (kernel-hardware mapping): four-layer convergence across independent derivations. The facility is physically viable, computationally viable, and the kernel executes on the hardware natively.";

/// Outcome of the full chain.
#[derive(Debug)]
pub enum ConvergenceResult {
    /// Every stage holds.
    Pass {
        /// Derived throughput invariants.
        throughput: ThroughputInvariants,
        /// Status of the kernel-to-hardware mapping.
        oc_db1_status: &'static str,
        /// Status of the throughput derivation.
        oc_db3_status: &'static str,
        /// Summary of the converging layers.
        layer_summary: &'static str,
    },
    /// A stage fails.
    Fail {
        /// The stage that fails.
        stage: &'static str,
        /// What was found.
        finding: String,
    },
}

fn failure(stage: &'static str, finding: &str) -> (r: ConvergenceResult)
    ensures
        r matches ConvergenceResult::Fail { stage: s, finding: f } && s == stage && f@ == finding@,
{
    ConvergenceResult::Fail { stage, finding: String::from_str(finding) }
}

/// Runs the chain: the declared fabric has no rings, the A operator gives
/// source less target bandwidth on every edge, the community working set fits
/// module memory, the derived partition is admissible, the working set stays
/// resident, and the throughput derives. On the declared platform every stage
/// holds, so the chain passes, with the throughput of the admissible
/// partition.
pub fn run_convergence_test() -> (r: ConvergenceResult)
    ensures
        r matches ConvergenceResult::Pass { throughput, oc_db1_status, oc_db3_status, layer_summary }
            && oc_db1_status == OC_DB1_STATUS && oc_db3_status == OC_DB3_STATUS && layer_summary
            == LAYER_SUMMARY && throughput.time_per_pass_ps == COMMUNITY_WORKING_SET_BYTES
            * 1_000_000_000_000 / module_bandwidth_bytes_per_s()
            && throughput.analyses_per_second_per_module.numerator
            == module_bandwidth_bytes_per_s()
            && throughput.analyses_per_second_per_module.denominator
            == COMMUNITY_WORKING_SET_BYTES && throughput.analyses_per_second_rack.numerator == 8
            * module_bandwidth_bytes_per_s() && throughput.analyses_per_second_rack.denominator
            == COMMUNITY_WORKING_SET_BYTES,
{
    // Stage 1: the declared fabric topology.
    let topology = declare_fabric_topology();
    if !topology.ring_inadmissibility_check() {
        return failure(
            "fabric_topology",
            "Ring inadmissibility check failed on declared fabric topology",
        );
    }
    // Stage 2: the bandwidth field and the sign convention of the A operator.

    let field = declare_bandwidth_field(topology.n_loci);
    proof {
        assert forall|k: int| 0 <= k < topology.edges@.len() implies (
        #[trigger] topology.edges@[k]).source < field.bandwidth_mb_s@.len()
            && topology.edges@[k].target < field.bandwidth_mb_s@.len() by {
            assert(topology.edges@[k].source == declared_fabric_edge(k).0);
        }
    }
    let a_output = operator_a_fabric(&field, &topology);
    let n_edges = topology.edges.len();
    for idx in 0..n_edges
        invariant
            n_edges == topology.edges@.len(),
            endpoints_within(topology.edges@, field.bandwidth_mb_s@.len() as int),
            a_output@.len() == n_edges,
            forall|k: int|
                0 <= k < n_edges ==> #[trigger] a_output@[k] == a_value(
                    field.bandwidth_mb_s@,
                    topology.edges@[k],
                ),
    {
        let edge = &topology.edges[idx];
        assert(edge.source < field.bandwidth_mb_s@.len() && edge.target
            < field.bandwidth_mb_s@.len());
        let expected = field.bandwidth_mb_s[edge.source] as i128
            - field.bandwidth_mb_s[edge.target] as i128;
        if a_output[idx] != expected {
            let mut finding = String::from_str("A operator sign inconsistency at edge ");
            finding.append(decimal_text(idx as u128).as_str());
            finding.append(": got ");
            finding.append(signed_decimal_text(a_output[idx]).as_str());
            finding.append(", expected ");
            finding.append(signed_decimal_text(expected).as_str());
            return ConvergenceResult::Fail { stage: "fabric_field", finding };
        }
    }
    // Stage 3: the community workload graph fits one module.

    let graph = declare_lompoc_community_graph();
    if !graph.fits_in_module() {
        let mut finding = String::from_str("Community working set ");
        finding.append(decimal_text(graph.working_set_bytes as u128).as_str());
        finding.append(" bytes exceeds HBM3E capacity");
        return ConvergenceResult::Fail { stage: "workload_graph", finding };
    }
    // Stages 4 and 5: the partition and its admissibility.

    let assignment = derive_partition_assignment(&graph, &topology);
    proof {
        lemma_derived_partition_admissible(
            assignment.modules@,
            graph.working_set_bytes,
            topology.edges@,
        );
    }
    let partition_result = admissibility_check(&assignment, &graph, &topology);
    if !oc_db1_closed(&partition_result) {
        let finding = match &partition_result {
            PartitionResult::FailedCondition { condition, finding } => {
                let mut text = String::from_str("Condition ");
                text.append(condition);
                text.append(" failed: ");
                text.append(finding.as_str());
                text
            },
            _ => String::from_str("Unknown partition failure"),
        };
        return ConvergenceResult::Fail { stage: "partition_mapping", finding };
    }
    // Stage 6: the execution model keeps the working set resident.

    let model = declare_execution_model();
    if !model.working_set_resident {
        return failure(
            "kernel_execution",
            "Working set declared as not resident in HBM3E — throughput derivation inadmissible",
        );
    }
    // Stage 7: the throughput invariants.

    let throughput = match derive_throughput(&partition_result) {
        Some(t) => t,
        None => {
            return failure(
                "throughput_invariants",
                "Throughput derivation returned None — partition result did not close OC-DB-1",
            );
        },
    };
    ConvergenceResult::Pass {
        throughput,
        oc_db1_status: OC_DB1_STATUS,
        oc_db3_status: OC_DB3_STATUS,
        layer_summary: LAYER_SUMMARY,
    }
}


/// Text of the convergence report: on a pass, the statuses, the throughput
/// (per module, rack, pass time in nanoseconds to one decimal) and the layer
/// summary; on a failure, the stage and the finding; between rules.
pub open spec fn convergence_report_text(result: ConvergenceResult) -> Seq<char> {
    match result {
        ConvergenceResult::Pass { throughput, oc_db1_status, oc_db3_status, layer_summary } => {
            REPORT_RULE@ + "\n"@ + "ABR INFINITY FABRIC — CONVERGENCE REPORT\n"@
                + "AMD Instinct MI355X Platform\n"@ + "Metatron Dynamics, Inc. · Bounded over D.\n"@
                + REPORT_RULE@ + "\n"@ + "RESULT: PASS\n"@ + REPORT_THIN_RULE@ + "\n"@
                + "OC-DB-1: "@ + oc_db1_status@ + "\n"@ + REPORT_THIN_RULE@ + "\n"@ + "OC-DB-3: "@
                + oc_db3_status@ + "\n"@ + REPORT_THIN_RULE@ + "\n"@
                + "Throughput (structural derivation):\n"@ + "Per module:  "@ + rounded_whole(
                throughput.analyses_per_second_per_module.numerator as nat,
                throughput.analyses_per_second_per_module.denominator as nat,
            ) + " analyses/second\n"@ + "Rack total:  "@ + rounded_whole(
                throughput.analyses_per_second_rack.numerator as nat,
                throughput.analyses_per_second_rack.denominator as nat,
            ) + " analyses/second\n"@ + "Pass time:   "@ + fixed_point(
                throughput.time_per_pass_ps as nat,
                1000,
                1,
            ) + " ns per community analysis\n"@ + REPORT_THIN_RULE@ + "\n"@
                + "Layer convergence: "@ + layer_summary@ + "\n"@ + REPORT_THIN_RULE@ + "\n"@
                + "PASS is a conformance statement.\n"@
                + "Correspondence requires instrument measurement.\n"@ + REPORT_RULE@
        },
        ConvergenceResult::Fail { stage, finding } => {
            REPORT_RULE@ + "\n"@ + "ABR INFINITY FABRIC — CONVERGENCE REPORT\n"@
                + "RESULT: FAIL\n"@ + "Stage: "@ + stage@ + "\n"@ + "Finding: "@ + finding@ + "\n"@
                + REPORT_RULE@
        },
    }
}

/// Human-readable convergence report.
pub fn convergence_report(result: &ConvergenceResult) -> (r: String)
    ensures
        r@ == convergence_report_text(*result),
{
    proof {
        lemma_pow10_small();
    }
    let mut out = String::from_str(REPORT_RULE);
    out.append("\n");
    out.append("ABR INFINITY FABRIC — CONVERGENCE REPORT\n");
    match result {
        ConvergenceResult::Pass { throughput, oc_db1_status, oc_db3_status, layer_summary } => {
            out.append("AMD Instinct MI355X Platform\n");
            out.append("Metatron Dynamics, Inc. · Bounded over D.\n");
            out.append(REPORT_RULE);
            out.append("\n");
            out.append("RESULT: PASS\n");
            out.append(REPORT_THIN_RULE);
            out.append("\n");
            out.append("OC-DB-1: ");
            out.append(oc_db1_status);
            out.append("\n");
            out.append(REPORT_THIN_RULE);
            out.append("\n");
            out.append("OC-DB-3: ");
            out.append(oc_db3_status);
            out.append("\n");
            out.append(REPORT_THIN_RULE);
            out.append("\n");
            out.append("Throughput (structural derivation):\n");
            out.append("Per module:  ");
            out.append(
                rounded_whole_text(
                    throughput.analyses_per_second_per_module.numerator,
                    throughput.analyses_per_second_per_module.denominator,
                ).as_str(),
            );
            out.append(" analyses/second\n");
            out.append("Rack total:  ");
            out.append(
                rounded_whole_text(
                    throughput.analyses_per_second_rack.numerator,
                    throughput.analyses_per_second_rack.denominator,
                ).as_str(),
            );
            out.append(" analyses/second\n");
            out.append("Pass time:   ");
            out.append(fixed_point_text(throughput.time_per_pass_ps as u128, 1000, 1).as_str());
            out.append(" ns per community analysis\n");
            out.append(REPORT_THIN_RULE);
            out.append("\n");
            out.append("Layer convergence: ");
            out.append(layer_summary);
            out.append("\n");
            out.append(REPORT_THIN_RULE);
            out.append("\n");
            out.append("PASS is a conformance statement.\n");
            out.append("Correspondence requires instrument measurement.\n");
        },
        ConvergenceResult::Fail { stage, finding } => {
            out.append("RESULT: FAIL\n");
            out.append("Stage: ");
            out.append(stage);
            out.append("\n");
            out.append("Finding: ");
            out.append(finding.as_str());
            out.append("\n");
        },
    }
    out.append(REPORT_RULE);
    out
}

} // verus!
