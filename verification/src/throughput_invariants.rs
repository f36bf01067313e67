//! Throughput derived from declared quantities once the partition is
//! admissible: one pass of the A, B and R operators reads an analysis's
//! working set once at module memory bandwidth.
use vstd::prelude::*;
use crate::partition_mapping::{PartitionResult, oc_db1_closed};
use crate::workload_graph::COMMUNITY_WORKING_SET_BYTES;
use crate::fabric_field::OAM_MEMORY_BW_MB_S;
use crate::kernel_execution::ExactRatio;
use crate::text::{
    decimal,
    fixed_point,
    decimal_text,
    fixed_point_text,
    lemma_pow10_small,
    rounded_whole,
    rounded_whole_text,
    REPORT_RULE,
    REPORT_THIN_RULE,
};

verus! {

/// Number of accelerator modules in the rack.
const N_MODULES: u64 = 8;

/// Module memory bandwidth in bytes per second.
pub open spec fn module_bandwidth_bytes_per_s() -> int {
    OAM_MEMORY_BW_MB_S * 1_000_000
}

/// Epistemic status of the throughput derivation.
pub const EPISTEMIC_STATUS: &'static str = "STRUCTURAL DERIVATION from declared constants. Not a measured throughput. Correspondence requires instrument measurement (OC-DB-3).";

/// Open conditions that apply to the throughput derivation.
pub const THROUGHPUT_OPEN_CONDITIONS: &'static str = "OC-DB-3 (correspondence requires measurement), OC-IF-3 (HIP implementation overhead not captured)";

/// Throughput invariants of the rack, derived from declared constants.
#[derive(Debug, Clone)]
pub struct ThroughputInvariants {
    /// Time of one pass over one analysis's working set, in picoseconds.
    pub time_per_pass_ps: u64,
    /// Analyses per second on one module, as an exact fraction.
    pub analyses_per_second_per_module: ExactRatio,
    /// Analyses per second on all eight modules, as an exact fraction.
    pub analyses_per_second_rack: ExactRatio,
    /// Share of module memory bandwidth in use, in percent.
    pub bandwidth_utilization_percent: u64,
    /// Epistemic status of the derivation.
    pub epistemic_status: &'static str,
    /// Open conditions that apply.
    pub open_conditions: &'static str,
}

/// Derives the throughput invariants, which exist only when the partition is
/// admissible: the pass time is the working set over the bandwidth (131,072
/// ps, exactly), the per-module throughput the bandwidth over the working set
/// (7,629,394.53125 per second, kept as that exact fraction), the rack
/// throughput eight times that, and the bandwidth fully used.
pub fn derive_throughput(partition_result: &PartitionResult) -> (r: Option<ThroughputInvariants>)
    ensures
        r is Some <==> (partition_result is AdmissiblePass),
        r matches Some(inv) ==> {
            &&& inv.time_per_pass_ps == COMMUNITY_WORKING_SET_BYTES * 1_000_000_000_000
                / module_bandwidth_bytes_per_s()
            &&& inv.analyses_per_second_per_module.numerator == module_bandwidth_bytes_per_s()
            &&& inv.analyses_per_second_per_module.denominator == COMMUNITY_WORKING_SET_BYTES
            &&& inv.analyses_per_second_rack.numerator == 8 * module_bandwidth_bytes_per_s()
            &&& inv.analyses_per_second_rack.denominator == COMMUNITY_WORKING_SET_BYTES
            &&& inv.bandwidth_utilization_percent == 100
            &&& inv.epistemic_status == EPISTEMIC_STATUS
            &&& inv.open_conditions == THROUGHPUT_OPEN_CONDITIONS
        },
{
    if !oc_db1_closed(partition_result) {
        return None;
    }
    let working_set_bytes = COMMUNITY_WORKING_SET_BYTES;
    let bandwidth_bytes_per_s = OAM_MEMORY_BW_MB_S * 1_000_000;
    let time_per_pass_ps = working_set_bytes * 1_000_000_000_000 / bandwidth_bytes_per_s;
    let analyses_per_second_per_module = ExactRatio {
        numerator: bandwidth_bytes_per_s,
        denominator: working_set_bytes,
    };
    let analyses_per_second_rack = ExactRatio {
        numerator: bandwidth_bytes_per_s * N_MODULES,
        denominator: working_set_bytes,
    };
    let epistemic_status = EPISTEMIC_STATUS;
    let open_conditions = THROUGHPUT_OPEN_CONDITIONS;
    Some(
        ThroughputInvariants {
            time_per_pass_ps,
            analyses_per_second_per_module,
            analyses_per_second_rack,
            bandwidth_utilization_percent: 100,
            epistemic_status,
            open_conditions,
        },
    )
}


/// Text of the throughput report: the pass time in nanoseconds to one
/// decimal, the per-module and rack throughputs, the bandwidth use, the
/// epistemic status and the open conditions, between rules.
pub open spec fn throughput_report_text(inv: ThroughputInvariants) -> Seq<char> {
    REPORT_RULE@ + "\n"@ + "ABR INFINITY FABRIC — THROUGHPUT INVARIANTS\n"@
        + "AMD Instinct MI355X Platform — Structural Derivation\n"@
        + "Metatron Dynamics, Inc. · Bounded over D.\n"@ + REPORT_RULE@ + "\n"@
        + "Time per ABR pass (A→B→R):           "@ + fixed_point(
        inv.time_per_pass_ps as nat,
        1000,
        1,
    ) + " ns per community\n"@ + "Throughput per module:               "@ + rounded_whole(
        inv.analyses_per_second_per_module.numerator as nat,
        inv.analyses_per_second_per_module.denominator as nat,
    ) + " analyses/second\n"@ + "Throughput at rack scale (8 modules):"@ + rounded_whole(
        inv.analyses_per_second_rack.numerator as nat,
        inv.analyses_per_second_rack.denominator as nat,
    ) + " analyses/second\n"@ + "Bandwidth utilization:               "@ + decimal(
        inv.bandwidth_utilization_percent as nat,
    ) + "% of declared HBM3E\n"@ + REPORT_THIN_RULE@ + "\n"@ + "Epistemic status: "@
        + inv.epistemic_status@ + "\n"@ + REPORT_THIN_RULE@ + "\n"@ + "Open conditions: "@
        + inv.open_conditions@ + "\n"@ + REPORT_RULE@
}

/// Human-readable throughput report.
pub fn throughput_report(inv: &ThroughputInvariants) -> (r: String)
    ensures
        r@ == throughput_report_text(*inv),
{
    proof {
        lemma_pow10_small();
    }
    let mut out = String::from_str(REPORT_RULE);
    out.append("\n");
    out.append("ABR INFINITY FABRIC — THROUGHPUT INVARIANTS\n");
    out.append("AMD Instinct MI355X Platform — Structural Derivation\n");
    out.append("Metatron Dynamics, Inc. · Bounded over D.\n");
    out.append(REPORT_RULE);
    out.append("\n");
    out.append("Time per ABR pass (A→B→R):           ");
    out.append(fixed_point_text(inv.time_per_pass_ps as u128, 1000, 1).as_str());
    out.append(" ns per community\n");
    out.append("Throughput per module:               ");
    out.append(
        rounded_whole_text(
            inv.analyses_per_second_per_module.numerator,
            inv.analyses_per_second_per_module.denominator,
        ).as_str(),
    );
    out.append(" analyses/second\n");
    out.append("Throughput at rack scale (8 modules):");
    out.append(
        rounded_whole_text(
            inv.analyses_per_second_rack.numerator,
            inv.analyses_per_second_rack.denominator,
        ).as_str(),
    );
    out.append(" analyses/second\n");
    out.append("Bandwidth utilization:               ");
    out.append(decimal_text(inv.bandwidth_utilization_percent as u128).as_str());
    out.append("% of declared HBM3E\n");
    out.append(REPORT_THIN_RULE);
    out.append("\n");
    out.append("Epistemic status: ");
    out.append(inv.epistemic_status);
    out.append("\n");
    out.append(REPORT_THIN_RULE);
    out.append("\n");
    out.append("Open conditions: ");
    out.append(inv.open_conditions);
    out.append("\n");
    out.append(REPORT_RULE);
    out
}

} // verus!
