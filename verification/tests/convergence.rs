use abr_infinity_fabric::convergence::{convergence_report, run_convergence_test, ConvergenceResult};

#[test]
fn convergence_test_passes() {
    let result = run_convergence_test();
    match &result {
        ConvergenceResult::Pass { .. } => {}
        ConvergenceResult::Fail { stage, finding } => {
            panic!("Convergence test failed at stage '{}': {}", stage, finding);
        }
    }
}

#[test]
fn oc_db1_named_as_closed_in_pass() {
    let result = run_convergence_test();
    match result {
        ConvergenceResult::Pass { oc_db1_status, .. } => {
            assert!(oc_db1_status.contains("CLOSED"), "Pass result must declare OC-DB-1 as CLOSED");
        }
        ConvergenceResult::Fail { .. } => panic!("Expected Pass"),
    }
}

#[test]
fn oc_db3_named_as_structurally_closed_in_pass() {
    let result = run_convergence_test();
    match result {
        ConvergenceResult::Pass { oc_db3_status, .. } => {
            assert!(oc_db3_status.contains("CLOSED STRUCTURALLY"),
                "Pass result must declare OC-DB-3 as CLOSED STRUCTURALLY");
        }
        ConvergenceResult::Fail { .. } => panic!("Expected Pass"),
    }
}

#[test]
fn throughput_positive_in_pass() {
    let result = run_convergence_test();
    match result {
        ConvergenceResult::Pass { throughput, .. } => {
            assert!(throughput.analyses_per_second_per_module.numerator > 0
                && throughput.analyses_per_second_per_module.denominator > 0,
                "Throughput per module must be positive");
            assert!(throughput.analyses_per_second_rack.numerator > 0
                && throughput.analyses_per_second_rack.denominator > 0, "Rack throughput must be positive");
        }
        ConvergenceResult::Fail { .. } => panic!("Expected Pass"),
    }
}

#[test]
fn four_layer_convergence_named() {
    let result = run_convergence_test();
    match result {
        ConvergenceResult::Pass { layer_summary, .. } => {
            assert!(layer_summary.contains("Layer 1"),
                "Layer summary must reference Layer 1 (grid physics)");
            assert!(layer_summary.contains("Layer 4"),
                "Layer summary must reference Layer 4 (kernel-hardware mapping)");
        }
        ConvergenceResult::Fail { .. } => panic!("Expected Pass"),
    }
}

#[test]
fn report_states_conformance_not_correspondence() {
    let result = run_convergence_test();
    let report = convergence_report(&result);
    assert!(report.contains("conformance statement"),
        "Report must state that PASS is a conformance statement, not a correspondence claim");
    assert!(report.contains("Per module:  7629395 analyses/second\n"));
    assert!(report.contains("Rack total:  61035156 analyses/second\n"));
    assert!(report.contains("Pass time:   131.1 ns per community analysis\n"));
}
