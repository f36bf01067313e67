use abr_infinity_fabric::fabric_topology::declare_fabric_topology;
use abr_infinity_fabric::partition_mapping::{
    admissibility_check, derive_partition_assignment, oc_db1_closed, ModuleAssignment,
    PartitionAssignment, PartitionResult,
};
use abr_infinity_fabric::workload_graph::{
    declare_lompoc_community_graph, HBM3E_BYTES_PER_MODULE, N_OAM_MODULES,
};

#[test]
fn partition_derived_not_assumed() {
    let g = declare_lompoc_community_graph();
    let t = declare_fabric_topology();
    let assignment = derive_partition_assignment(&g, &t);
    assert_eq!(assignment.modules.len(), N_OAM_MODULES,
        "Partition must assign exactly one entry per OAM module");
    let expected_per_module = HBM3E_BYTES_PER_MODULE / g.working_set_bytes;
    assert_eq!(assignment.modules[0].n_communities, expected_per_module,
        "Communities per module must be derived from HBM3E / working set");
}

#[test]
fn ac1_working_set_fits() {
    let g = declare_lompoc_community_graph();
    let t = declare_fabric_topology();
    let assignment = derive_partition_assignment(&g, &t);
    let result = admissibility_check(&assignment, &g, &t);
    match &result {
        PartitionResult::FailedCondition { condition, .. } => {
            assert_ne!(*condition, "AC-1", "AC-1 must pass: working set fits in HBM3E");
        }
        PartitionResult::AdmissiblePass { .. } => {}
    }
}

#[test]
fn ac2_zero_inter_module_bandwidth() {
    let g = declare_lompoc_community_graph();
    let t = declare_fabric_topology();
    let assignment = derive_partition_assignment(&g, &t);
    let total_inter: f64 = assignment.modules.iter()
        .map(|m| m.inter_module_bw_required_mb_s as f64 / 1000.0)
        .sum();
    assert!(total_inter.abs() < 1e-10, "Independent analyses require zero inter-module bandwidth");
}

#[test]
fn admissibility_check_passes() {
    let g = declare_lompoc_community_graph();
    let t = declare_fabric_topology();
    let assignment = derive_partition_assignment(&g, &t);
    let result = admissibility_check(&assignment, &g, &t);
    assert!(oc_db1_closed(&result),
        "Admissibility check must pass for independent community workload");
}

#[test]
fn fabric_bottleneck_not_active() {
    let g = declare_lompoc_community_graph();
    let t = declare_fabric_topology();
    let assignment = derive_partition_assignment(&g, &t);
    let result = admissibility_check(&assignment, &g, &t);
    match result {
        PartitionResult::AdmissiblePass { fabric_bottleneck_active, .. } => {
            assert!(!fabric_bottleneck_active,
                "Fabric switch must not be a bottleneck for independent community analyses");
        }
        PartitionResult::FailedCondition { .. } => {
            panic!("Expected AdmissiblePass");
        }
    }
}

#[test]
fn oc_db1_formally_closed() {
    let g = declare_lompoc_community_graph();
    let t = declare_fabric_topology();
    let assignment = derive_partition_assignment(&g, &t);
    let result = admissibility_check(&assignment, &g, &t);
    assert!(oc_db1_closed(&result),
        "OC-DB-1 must be formally closed by admissible partition result");
}

#[test]
fn total_communities_declared() {
    let g = declare_lompoc_community_graph();
    let t = declare_fabric_topology();
    let assignment = derive_partition_assignment(&g, &t);
    assert!(assignment.total_communities > 1_000_000,
        "Total simultaneous communities must exceed 1M at rack scale");
}

fn module(index: usize, ws: u64, bw: i64) -> ModuleAssignment {
    ModuleAssignment {
        module_index: index,
        n_communities: 1,
        total_working_set_bytes: ws,
        inter_module_bw_required_mb_s: bw,
    }
}

fn assignment(modules: Vec<ModuleAssignment>) -> PartitionAssignment {
    PartitionAssignment { modules, total_communities: 0, admissible: true }
}

fn failure(result: &PartitionResult) -> (&'static str, String) {
    match result {
        PartitionResult::FailedCondition { condition, finding } => (*condition, finding.clone()),
        PartitionResult::AdmissiblePass { .. } => panic!("Expected FailedCondition"),
    }
}

#[test]
fn ac1_reports_first_module_over_capacity() {
    let g = declare_lompoc_community_graph();
    let t = declare_fabric_topology();
    let over = HBM3E_BYTES_PER_MODULE + 1;
    let a = assignment(vec![module(0, 10, 0), module(1, over, -5), module(2, over + 1, 0)]);
    let result = admissibility_check(&a, &g, &t);
    assert!(!oc_db1_closed(&result));
    let (condition, finding) = failure(&result);
    assert_eq!(condition, "AC-1");
    assert_eq!(finding,
        "Module 1 working set 309237645313 bytes exceeds HBM3E capacity 309237645312 bytes");
}

#[test]
fn ac2_reports_fabric_overload() {
    let g = declare_lompoc_community_graph();
    let t = declare_fabric_topology();
    // The links at the switch carry 1,194,800 MB/s; the fabric carries half.
    let a = assignment(vec![module(0, 10, 600_000), module(1, 10, -1)]);
    let (condition, finding) = failure(&admissibility_check(&a, &g, &t));
    assert_eq!(condition, "AC-2");
    assert_eq!(finding,
        "Required inter-module bandwidth 600.0 GB/s exceeds declared fabric aggregate 597.4 GB/s");
}

#[test]
fn ac2_passes_at_fabric_capacity() {
    let g = declare_lompoc_community_graph();
    let t = declare_fabric_topology();
    let a = assignment(vec![module(0, 10, 597_400)]);
    let result = admissibility_check(&a, &g, &t);
    match result {
        PartitionResult::AdmissiblePass {
            inter_module_bandwidth_required_mb_s,
            fabric_bottleneck_active,
            ..
        } => {
            assert_eq!(inter_module_bandwidth_required_mb_s, 597_400);
            assert!(fabric_bottleneck_active);
        }
        PartitionResult::FailedCondition { .. } => panic!("Expected AdmissiblePass"),
    }
}

#[test]
fn ac3_reports_negative_bandwidth() {
    let g = declare_lompoc_community_graph();
    let t = declare_fabric_topology();
    let a = assignment(vec![module(0, 10, 0), module(4, 10, -7), module(5, 10, 3)]);
    let (condition, finding) = failure(&admissibility_check(&a, &g, &t));
    assert_eq!(condition, "AC-3");
    assert_eq!(finding, "Module 4 has undeclared negative bandwidth: -0.0 GB/s");
    let a = assignment(vec![module(2, 10, -12_345)]);
    let (condition, finding) = failure(&admissibility_check(&a, &g, &t));
    assert_eq!(condition, "AC-3");
    assert_eq!(finding, format!("Module 2 has undeclared negative bandwidth: {:.1} GB/s", -12.345f64));
    assert_eq!(finding, "Module 2 has undeclared negative bandwidth: -12.3 GB/s");
}
