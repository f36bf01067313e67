use abr_infinity_fabric::fabric_field::OAM_MEMORY_BW_MB_S;
use abr_infinity_fabric::kernel_execution::ExactRatio;
use abr_infinity_fabric::fabric_topology::declare_fabric_topology;
use abr_infinity_fabric::partition_mapping::{
    admissibility_check, derive_partition_assignment, PartitionResult,
};
use abr_infinity_fabric::throughput_invariants::{derive_throughput, throughput_report};
use abr_infinity_fabric::workload_graph::{declare_lompoc_community_graph, COMMUNITY_WORKING_SET_BYTES};

/// A rate held as an exact fraction, as a floating-point number.
fn rate(r: ExactRatio) -> f64 {
    r.numerator as f64 / r.denominator as f64
}

fn get_admissible_result() -> PartitionResult {
    let g = declare_lompoc_community_graph();
    let t = declare_fabric_topology();
    let assignment = derive_partition_assignment(&g, &t);
    admissibility_check(&assignment, &g, &t)
}

#[test]
fn throughput_requires_admissible_partition() {
    let failed = PartitionResult::FailedCondition {
        condition: "AC-1",
        finding: "test".to_string(),
    };
    assert!(derive_throughput(&failed).is_none(),
        "Throughput derivation must require AdmissiblePass input");
}

#[test]
fn throughput_derived_from_admissible_partition() {
    let result = get_admissible_result();
    let inv = derive_throughput(&result);
    assert!(inv.is_some(), "Throughput must be derivable from admissible partition result");
}

#[test]
fn time_per_pass_derived_correctly() {
    // 1,048,576 bytes / (8,000 x 10^9 bytes/s) = 131.1 ns
    let result = get_admissible_result();
    let inv = derive_throughput(&result).unwrap();
    let bandwidth_gb_s = OAM_MEMORY_BW_MB_S as f64 / 1000.0;
    let expected_ns = COMMUNITY_WORKING_SET_BYTES as f64 / (bandwidth_gb_s * 1e9) * 1e9;
    let time_per_pass_ns = inv.time_per_pass_ps as f64 / 1000.0;
    assert!((time_per_pass_ns - expected_ns).abs() < 1e-3,
        "Time per pass must be derived from working set / bandwidth: got {:.1} ns, expected {:.1} ns",
        time_per_pass_ns, expected_ns);
}

#[test]
fn throughput_per_module_large() {
    let result = get_admissible_result();
    let inv = derive_throughput(&result).unwrap();
    assert!(rate(inv.analyses_per_second_per_module) > 1_000_000.0,
        "Throughput per module must exceed 1M analyses/second");
}

#[test]
fn rack_throughput_is_eight_modules() {
    let result = get_admissible_result();
    let inv = derive_throughput(&result).unwrap();
    let expected = rate(inv.analyses_per_second_per_module) * 8.0;
    assert!((rate(inv.analyses_per_second_rack) - expected).abs() < 1.0,
        "Rack throughput must equal 8 x per-module throughput");
}

#[test]
fn bandwidth_utilization_declared_correctly() {
    let result = get_admissible_result();
    let inv = derive_throughput(&result).unwrap();
    let fraction = inv.bandwidth_utilization_percent as f64 / 100.0;
    assert!((fraction - 1.0).abs() < 1e-10, "Bandwidth utilization must be 1.0 for resident working set");
}

#[test]
fn open_conditions_named() {
    let result = get_admissible_result();
    let inv = derive_throughput(&result).unwrap();
    assert!(inv.open_conditions.contains("OC-DB-3"), "OC-DB-3 must be named in open conditions");
}

#[test]
fn epistemic_status_states_structural_derivation() {
    let result = get_admissible_result();
    let inv = derive_throughput(&result).unwrap();
    assert!(inv.epistemic_status.contains("STRUCTURAL DERIVATION"));
    assert!(inv.epistemic_status.contains("OC-DB-3"));
}

#[test]
fn throughput_values_exact() {
    let result = get_admissible_result();
    let inv = derive_throughput(&result).unwrap();
    assert_eq!(inv.time_per_pass_ps, 131_072);
    assert_eq!(inv.analyses_per_second_per_module, ExactRatio { numerator: 8_000_000_000_000, denominator: 1_048_576 });
    assert_eq!(inv.analyses_per_second_rack, ExactRatio { numerator: 64_000_000_000_000, denominator: 1_048_576 });
    assert_eq!(rate(inv.analyses_per_second_per_module), 7_629_394.53125);
}

#[test]
fn report_states_structural_derivation() {
    let result = get_admissible_result();
    let inv = derive_throughput(&result).unwrap();
    let report = throughput_report(&inv);
    assert!(report.contains("STRUCTURAL DERIVATION"),
        "Report must state epistemic status as structural derivation");
    assert!(report.contains("OC-DB-3"), "Report must name OC-DB-3");
}

#[test]
fn report_lists_derived_values() {
    let result = get_admissible_result();
    let inv = derive_throughput(&result).unwrap();
    let report = throughput_report(&inv);
    assert!(report.contains("7629395 analyses/second"), "Report must state the per-module rate");
    assert!(report.contains("61035156 analyses/second"), "Report must state the rack rate");
    assert!(report.contains("131.1 ns per community"), "Report must state the time per pass");
}
