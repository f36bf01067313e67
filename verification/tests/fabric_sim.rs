use abr_infinity_fabric::fabric_sim::{
    declare_dependency_graph, format_comparison_table, run_simulation_matrix, simulate, BeatRatio, PredictedBeatCounts,
    WorkloadClass, WorkloadParams,
};
use abr_infinity_fabric::fabric_topology::declare_fabric_topology;

/// The structural reduction factor as a floating-point number.
fn reduction_factor(r: &PredictedBeatCounts) -> f64 {
    let BeatRatio { numerator, denominator } = r.structural_reduction_factor;
    numerator as f64 / denominator as f64
}

#[test]
fn independent_class_has_zero_dependency_edges() {
    let params = WorkloadParams::default_l2();
    let deps = declare_dependency_graph(WorkloadClass::Independent, &params);
    assert_eq!(deps.len(), 0, "Independent class must declare zero dependency edges");
}

#[test]
fn independent_class_does_not_activate_fabric_locus() {
    let topology = declare_fabric_topology();
    let params = WorkloadParams::default_l2();
    let result = simulate(WorkloadClass::Independent, &params, "test", &topology);
    assert!(!result.activates_lower_bandwidth_locus,
        "Independent class must not activate lower-bandwidth fabric locus");
}

#[test]
fn independent_class_xgmi_beats_are_zero() {
    let topology = declare_fabric_topology();
    let params = WorkloadParams::default_l2();
    let result = simulate(WorkloadClass::Independent, &params, "test", &topology);
    assert_eq!(result.predicted_xgmi_beats, 0,
        "Independent class must predict zero xGMI beats on single-socket hardware");
}

#[test]
fn all_classes_xgmi_beats_are_zero_on_desktop() {
    let topology = declare_fabric_topology();
    for class in [WorkloadClass::Independent, WorkloadClass::WeaklyCoupled, WorkloadClass::FullyCoupled] {
        let result = simulate(class, &WorkloadParams::default_l2(), "test", &topology);
        assert_eq!(result.predicted_xgmi_beats, 0,
            "{:?}: all classes must predict zero xGMI beats on desktop (OC-IF-SIM-1)", class);
    }
}

#[test]
fn weakly_coupled_has_correct_edge_count() {
    let params = WorkloadParams::default_l2();
    let deps = declare_dependency_graph(WorkloadClass::WeaklyCoupled, &params);
    let expected = params.n_regions * params.n_weak_deps_per_region;
    assert_eq!(deps.len(), expected,
        "WeaklyCoupled must declare n_regions x n_weak_deps edges: expected {}, got {}",
        expected, deps.len());
}

#[test]
fn fully_coupled_has_correct_edge_count() {
    let params = WorkloadParams::default_l2();
    let deps = declare_dependency_graph(WorkloadClass::FullyCoupled, &params);
    let expected = params.n_regions * (params.n_regions - 1);
    assert_eq!(deps.len(), expected,
        "FullyCoupled must declare n_regions x (n_regions-1) edges: expected {}, got {}",
        expected, deps.len());
}

#[test]
fn cs_read_beats_increase_with_dependency_count() {
    let topology = declare_fabric_topology();
    let params = WorkloadParams::default_dram();
    let ind = simulate(WorkloadClass::Independent, &params, "test", &topology);
    let wk = simulate(WorkloadClass::WeaklyCoupled, &params, "test", &topology);
    let fc = simulate(WorkloadClass::FullyCoupled, &params, "test", &topology);
    assert!(wk.predicted_cs_read_beats_total > ind.predicted_cs_read_beats_total,
        "WeaklyCoupled must predict more CS read beats than Independent");
    assert!(fc.predicted_cs_read_beats_total > wk.predicted_cs_read_beats_total,
        "FullyCoupled must predict more CS read beats than WeaklyCoupled");
}

#[test]
fn cs_read_beats_increase_with_working_set_scale() {
    let topology = declare_fabric_topology();
    let l2 = simulate(WorkloadClass::Independent, &WorkloadParams::default_l2(), "L2", &topology);
    let l3 = simulate(WorkloadClass::Independent, &WorkloadParams::default_l3(), "L3", &topology);
    let dram = simulate(WorkloadClass::Independent, &WorkloadParams::default_dram(), "DRAM", &topology);
    assert!(l3.predicted_cs_read_beats_working_set > l2.predicted_cs_read_beats_working_set,
        "L3 scale must predict more CS read beats than L2 scale");
    assert!(dram.predicted_cs_read_beats_working_set > l3.predicted_cs_read_beats_working_set,
        "DRAM scale must predict more CS read beats than L3 scale");
}

#[test]
fn fully_coupled_activates_lower_bandwidth_locus() {
    let topology = declare_fabric_topology();
    let result = simulate(WorkloadClass::FullyCoupled, &WorkloadParams::default_l2(), "test", &topology);
    assert!(result.activates_lower_bandwidth_locus,
        "FullyCoupled class must activate lower-bandwidth fabric locus");
}

#[test]
fn independent_dependency_beats_are_zero() {
    let topology = declare_fabric_topology();
    let result = simulate(WorkloadClass::Independent, &WorkloadParams::default_l2(), "test", &topology);
    assert_eq!(result.predicted_cs_read_beats_dependencies, 0,
        "Independent class must predict zero dependency CS read beats");
}

#[test]
fn no_self_loop_dependency_edges() {
    let params = WorkloadParams::default_l2();
    for class in [WorkloadClass::WeaklyCoupled, WorkloadClass::FullyCoupled] {
        let deps = declare_dependency_graph(class, &params);
        for edge in &deps {
            assert_ne!(edge.dependent, edge.source,
                "{:?}: self-loop dependency edge at region {} -- inadmissible", class, edge.dependent);
        }
    }
}

#[test]
fn simulation_matrix_produces_nine_results() {
    let results = run_simulation_matrix();
    assert_eq!(results.len(), 9, "Simulation matrix must produce 3 classes x 3 scales = 9 results");
}

#[test]
fn topology_ring_inadmissibility_holds_through_simulation() {
    let topology = declare_fabric_topology();
    assert!(topology.ring_inadmissibility_check(),
        "Fabric topology must pass ring inadmissibility throughout simulation");
}

#[test]
fn bytes_per_beat_consistent_with_ppr_declaration() {
    let params = WorkloadParams {
        n_regions: 1,
        working_set_bytes_per_region: 640,
        bytes_per_dependency_edge: 64,
        n_weak_deps_per_region: 0,
    };
    let topology = declare_fabric_topology();
    let result = simulate(WorkloadClass::Independent, &params, "test", &topology);
    assert_eq!(result.predicted_cs_read_beats_working_set, 10,
        "640 bytes / 64 bytes per beat must produce 10 CS read beats per PPR declaration");
}

#[test]
fn undeclared_baseline_exceeds_declared_for_independent() {
    let topology = declare_fabric_topology();
    for params in [WorkloadParams::default_l2(), WorkloadParams::default_l3(), WorkloadParams::default_dram()] {
        let result = simulate(WorkloadClass::Independent, &params, "test", &topology);
        assert!(result.undeclared_baseline_beats > result.predicted_cs_read_beats_total,
            "Undeclared baseline must exceed declared beats for Independent class");
    }
}

#[test]
fn structural_reduction_factor_fixed_by_topology() {
    let topology = declare_fabric_topology();
    let r_l2 = simulate(WorkloadClass::Independent, &WorkloadParams::default_l2(), "L2", &topology);
    let r_l3 = simulate(WorkloadClass::Independent, &WorkloadParams::default_l3(), "L3", &topology);
    let r_dram = simulate(WorkloadClass::Independent, &WorkloadParams::default_dram(), "DRAM", &topology);
    let factor_l2 = (reduction_factor(&r_l2) * 10.0).round() / 10.0;
    let factor_l3 = (reduction_factor(&r_l3) * 10.0).round() / 10.0;
    let factor_dram = (reduction_factor(&r_dram) * 10.0).round() / 10.0;
    assert_eq!(factor_l2, factor_l3, "Reduction factor must be identical across L2 and L3 scales");
    assert_eq!(factor_l3, factor_dram, "Reduction factor must be identical across L3 and DRAM scales");
    assert!(reduction_factor(&r_l2) >= 7.9,
        "At n_regions=8, Independent reduction factor must be ~8.0, got {:.2}", reduction_factor(&r_l2));
}

#[test]
fn reduction_factor_greater_than_one_for_all_classes() {
    let topology = declare_fabric_topology();
    for class in [WorkloadClass::Independent, WorkloadClass::WeaklyCoupled, WorkloadClass::FullyCoupled] {
        let result = simulate(class, &WorkloadParams::default_dram(), "test", &topology);
        assert!(reduction_factor(&result) > 1.0,
            "{:?}: reduction factor must exceed 1.0, got {:.4}", class, reduction_factor(&result));
    }
}

#[test]
fn independent_has_highest_reduction_factor() {
    let topology = declare_fabric_topology();
    let ind = simulate(WorkloadClass::Independent, &WorkloadParams::default_dram(), "test", &topology);
    let wk = simulate(WorkloadClass::WeaklyCoupled, &WorkloadParams::default_dram(), "test", &topology);
    let fc = simulate(WorkloadClass::FullyCoupled, &WorkloadParams::default_dram(), "test", &topology);
    assert!(reduction_factor(&ind) > reduction_factor(&wk),
        "Independent must have higher reduction factor than WeaklyCoupled");
    assert!(reduction_factor(&wk) > reduction_factor(&fc),
        "WeaklyCoupled must have higher reduction factor than FullyCoupled");
}

#[test]
fn independent_reduction_is_exactly_region_count() {
    let topology = declare_fabric_topology();
    let r = simulate(WorkloadClass::Independent, &WorkloadParams::default_l2(), "L2", &topology);
    assert_eq!(r.predicted_cs_read_beats_total, 64_000);
    assert_eq!(r.undeclared_baseline_beats, 512_000);
    assert_eq!(r.structural_reduction_factor, BeatRatio { numerator: 512_000, denominator: 64_000 });
}

#[test]
fn dependency_beats_exact_per_class() {
    let topology = declare_fabric_topology();
    let params = WorkloadParams::default_dram();
    let wk = simulate(WorkloadClass::WeaklyCoupled, &params, "test", &topology);
    let fc = simulate(WorkloadClass::FullyCoupled, &params, "test", &topology);
    assert_eq!(wk.n_dependency_edges, 16);
    assert_eq!(wk.predicted_cs_read_beats_dependencies, 16);
    assert_eq!(wk.predicted_cs_read_beats_total, 2_000_016);
    assert_eq!(fc.n_dependency_edges, 56);
    assert_eq!(fc.predicted_cs_read_beats_dependencies, 56);
    assert_eq!(fc.undeclared_baseline_beats, 16_000_000);
}

#[test]
fn weakly_coupled_wraps_and_skips_self() {
    let params = WorkloadParams {
        n_regions: 3,
        working_set_bytes_per_region: 64,
        bytes_per_dependency_edge: 10,
        n_weak_deps_per_region: 4,
    };
    let deps = declare_dependency_graph(WorkloadClass::WeaklyCoupled, &params);
    let pairs: Vec<(usize, usize)> = deps.iter().map(|e| (e.dependent, e.source)).collect();
    // offsets 1, 2, 4 land elsewhere; offset 3 lands on the region itself
    assert_eq!(pairs, vec![(0, 1), (0, 2), (0, 1), (1, 2), (1, 0), (1, 2), (2, 0), (2, 1), (2, 0)]);
    assert!(deps.iter().all(|e| e.bytes == 10));
}

#[test]
fn empty_workload_has_unit_reduction_factor() {
    let params = WorkloadParams {
        n_regions: 0,
        working_set_bytes_per_region: 100,
        bytes_per_dependency_edge: 64,
        n_weak_deps_per_region: 2,
    };
    let topology = declare_fabric_topology();
    let r = simulate(WorkloadClass::FullyCoupled, &params, "empty", &topology);
    assert_eq!(r.predicted_cs_read_beats_total, 0);
    assert_eq!(r.structural_reduction_factor, BeatRatio { numerator: 1, denominator: 1 });
}

#[test]
fn matrix_order_is_scale_then_class() {
    let results = run_simulation_matrix();
    assert_eq!(results[0].scale_label, "L2-resident (4MB)");
    assert_eq!(results[4].class, WorkloadClass::WeaklyCoupled);
    assert_eq!(results[4].scale_label, "L3-resident (32MB)");
    assert_eq!(results[8].class, WorkloadClass::FullyCoupled);
    assert_eq!(results[8].working_set_bytes, 16_000_000);
}

#[test]
fn comparison_table_has_one_row_per_prediction() {
    let results = run_simulation_matrix();
    let table = format_comparison_table(&results);
    for r in &results {
        let class_str = match r.class {
            WorkloadClass::Independent => "Independent",
            WorkloadClass::WeaklyCoupled => "WeaklyCoupled",
            WorkloadClass::FullyCoupled => "FullyCoupled",
        };
        let row = format!(
            "{:<28} {:<16} {:>10} {:>14} {:>12} {:>13.1}x {:>10}\n",
            r.scale_label,
            class_str,
            r.n_dependency_edges,
            r.predicted_cs_read_beats_total,
            r.undeclared_baseline_beats,
            reduction_factor(r),
            r.predicted_xgmi_beats,
        );
        assert!(table.contains(&row), "missing row: {}", row);
    }
    let header = format!(
        "{:<28} {:<16} {:>10} {:>14} {:>12} {:>14} {:>10}\n",
        "Scale", "Class", "Dep Edges", "Declared Beats", "Baseline", "Reduction", "xGMI"
    );
    assert!(table.contains(&header));
    assert!(table.contains(&format!("{}\n", "-".repeat(110))));
    assert!(table.starts_with("Simulation → Hardware Comparison Table"));
    assert!(table.ends_with("DRAM_PTI           — from V13 measurement protocol (core PMC)\n"));
}

#[test]
fn comparison_table_first_row_exact() {
    let results = run_simulation_matrix();
    let table = format_comparison_table(&results[..1]);
    let expected_row = "L2-resident (4MB)            Independent               0          64000       512000           8.0x          0\n";
    assert!(table.contains(expected_row));
}

#[test]
fn working_set_beats_round_up_per_region() {
    let topology = declare_fabric_topology();
    let params = WorkloadParams {
        n_regions: 2,
        working_set_bytes_per_region: 1,
        bytes_per_dependency_edge: 64,
        n_weak_deps_per_region: 2,
    };
    let r = simulate(WorkloadClass::Independent, &params, "tiny", &topology);
    assert_eq!(r.predicted_cs_read_beats_working_set, 2);
    assert_eq!(r.undeclared_baseline_beats, 4);
    assert_eq!(r.structural_reduction_factor, BeatRatio { numerator: 4, denominator: 2 });
    for (n, w) in [(3usize, 65u64), (8, 100), (5, 1)] {
        let p = WorkloadParams { n_regions: n, working_set_bytes_per_region: w, bytes_per_dependency_edge: 64, n_weak_deps_per_region: 2 };
        let r = simulate(WorkloadClass::Independent, &p, "odd", &topology);
        assert_eq!(r.undeclared_baseline_beats, n as u64 * r.predicted_cs_read_beats_total);
    }
}

#[test]
fn reduction_factor_ties_round_to_even() {
    let topology = declare_fabric_topology();
    let params = WorkloadParams {
        n_regions: 2,
        working_set_bytes_per_region: 1,
        bytes_per_dependency_edge: 448,
        n_weak_deps_per_region: 2,
    };
    let r = simulate(WorkloadClass::FullyCoupled, &params, "tie", &topology);
    assert_eq!(r.structural_reduction_factor, BeatRatio { numerator: 4, denominator: 16 });
    let table = format_comparison_table(&[r]);
    assert!(table.contains(&format!(" {:>13.1}x ", 0.25f64)));
    assert!(table.contains("          0.2x "));
}

#[test]
fn reduction_factor_renders_as_double_precision_division() {
    let topology = declare_fabric_topology();
    let params = WorkloadParams {
        n_regions: 7,
        working_set_bytes_per_region: 64,
        bytes_per_dependency_edge: 118,
        n_weak_deps_per_region: 1,
    };
    let r = simulate(WorkloadClass::WeaklyCoupled, &params, "tie", &topology);
    assert_eq!(r.structural_reduction_factor, BeatRatio { numerator: 49, denominator: 20 });
    let table = format_comparison_table(&[r]);
    assert!(table.contains("          2.5x "));
}

#[test]
fn reduction_factor_matches_float_formatting() {
    let mut pairs: Vec<(u64, u64)> = vec![
        (49, 20), (1, 4), (3, 4), (1, 3), (2, 3), (15, 10), (1, 20), (3, 20), (7, 20),
        (512_000, 64_000), (512_000, 64_016), (512_000, 64_056), (1, u64::MAX),
        (u64::MAX, 1), (u64::MAX, u64::MAX - 1), ((1 << 53) + 1, 1), ((1 << 60) + 3, 7),
        (123_456_789_012_345, 10_000), (9_007_199_254_740_993, 2), (1, 1 << 63),
    ];
    let mut x: u64 = 0x9E37_79B9_7F4A_7C15;
    for _ in 0..2000 {
        x ^= x << 13;
        x ^= x >> 7;
        x ^= x << 17;
        let num = (x >> (x % 64)) | 1;
        let den = (x.rotate_left(29) >> ((x >> 8) % 64)) | 1;
        pairs.push((num, den));
        pairs.push((num % 1000 + 1, den % 1000 + 1));
    }
    for (num, den) in pairs {
        let r = PredictedBeatCounts {
            class: WorkloadClass::Independent,
            scale_label: "x",
            working_set_bytes: 0,
            n_dependency_edges: 0,
            predicted_cs_read_beats_working_set: 0,
            predicted_cs_read_beats_dependencies: 0,
            predicted_cs_read_beats_total: den,
            predicted_xgmi_beats: 0,
            activates_lower_bandwidth_locus: false,
            undeclared_baseline_beats: num,
            structural_reduction_factor: BeatRatio { numerator: num, denominator: den },
        };
        let table = format_comparison_table(&[r]);
        let expected = format!(" {:>13.1}x ", num as f64 / den as f64);
        assert!(table.contains(&expected), "{} / {}: expected {}", num, den, expected);
    }
}
