use abr_infinity_fabric::sim3a::{
    compute_traversal_count, declare_topology, format_sim3a_report, run_sim3a, TopologyClass, HW_RATIO_S1_MILLI,
    HW_RATIO_S2_MILLI, HW_RATIO_S3_MILLI, N_LOCI,
};

#[test]
fn independent_declares_zero_inter_locus_edges() {
    let t = declare_topology(TopologyClass::Independent);
    assert_eq!(t.edges.len(), 0, "Independent must declare zero inter-locus edges");
}

#[test]
fn fully_coupled_declares_n_times_n_minus_1_edges() {
    let t = declare_topology(TopologyClass::FullyCoupled);
    assert_eq!(t.edges.len(), N_LOCI * (N_LOCI - 1),
        "FullyCoupled must declare n x (n-1) = {} edges", N_LOCI * (N_LOCI - 1));
}

#[test]
fn fully_coupled_has_no_self_loops() {
    let t = declare_topology(TopologyClass::FullyCoupled);
    for edge in &t.edges {
        assert_ne!(edge.from, edge.to, "FullyCoupled: self-loop at locus {} -- inadmissible", edge.from);
    }
}

#[test]
fn fully_coupled_covers_all_locus_pairs_exactly_once() {
    let t = declare_topology(TopologyClass::FullyCoupled);
    for i in 0..N_LOCI {
        for j in 0..N_LOCI {
            if i != j {
                let count = t.edges.iter().filter(|e| e.from == i && e.to == j).count();
                assert_eq!(count, 1, "Edge ({},{}) must appear exactly once", i, j);
            }
        }
    }
}

#[test]
fn independent_traversal_count_equals_n_loci() {
    let t = declare_topology(TopologyClass::Independent);
    let c = compute_traversal_count(&t);
    assert_eq!(c.total, N_LOCI, "C_I must equal |L| = {}", N_LOCI);
    assert_eq!(c.edge_count, 0, "Independent must contribute zero edge counts");
}

#[test]
fn fully_coupled_traversal_count_equals_n_squared() {
    let t = declare_topology(TopologyClass::FullyCoupled);
    let c = compute_traversal_count(&t);
    assert_eq!(c.total, N_LOCI * N_LOCI,
        "C_FC must equal |L| + |E| = n + n x (n-1) = n^2 = {}", N_LOCI * N_LOCI);
}

#[test]
fn derived_ratio_equals_n_loci() {
    let result = run_sim3a();
    let expected = N_LOCI as f64;
    let derived = result.derived_ratio_milli as f64 / 1000.0;
    assert!((derived - expected).abs() < 0.001,
        "Derived ratio must equal n = {}, got {:.4}", expected, derived);
}

#[test]
fn deltas_are_reported_not_tested() {
    let result = run_sim3a();
    for d in &result.deltas {
        let delta = d.delta_milli as f64 / 1000.0;
        assert!(delta.is_finite(), "Delta for {} must be finite", d.scale_label);
    }
}

#[test]
fn locus_counts_equal_n_loci_for_all_classes() {
    for class in [TopologyClass::Independent, TopologyClass::FullyCoupled] {
        let t = declare_topology(class);
        let c = compute_traversal_count(&t);
        assert_eq!(c.locus_count, N_LOCI, "{:?}: locus count must equal N_LOCI = {}", class, N_LOCI);
    }
}

#[test]
fn deltas_match_observed_ratios() {
    let result = run_sim3a();
    assert_eq!(result.derived_ratio_milli, 8_000);
    let deltas: Vec<i64> = result.deltas.iter().map(|d| d.delta_milli).collect();
    assert_eq!(deltas, vec![10, -55, 23]);
    assert_eq!(result.deltas[0].hw_ratio_milli, HW_RATIO_S1_MILLI);
    assert_eq!(result.deltas[1].hw_ratio_milli, HW_RATIO_S2_MILLI);
    assert_eq!(result.deltas[2].hw_ratio_milli, HW_RATIO_S3_MILLI);
    assert_eq!(result.deltas[2].scale_label, "S3 (128 MB)");
}

#[test]
fn fully_coupled_edges_in_lexicographic_order() {
    let t = declare_topology(TopologyClass::FullyCoupled);
    assert_eq!((t.edges[0].from, t.edges[0].to), (0, 1));
    assert_eq!((t.edges[7].from, t.edges[7].to), (1, 0));
    assert_eq!((t.edges[55].from, t.edges[55].to), (7, 6));
}

#[test]
fn sim3a_report_lists_directed_differences() {
    let report = format_sim3a_report(&run_sim3a());
    assert!(report.contains("  S1 (4 MB)       HW=8.010  Sim=8.0000  Δ=+0.0100\n"));
    assert!(report.contains("  S2 (32 MB)      HW=7.945  Sim=8.0000  Δ=-0.0550\n"));
    assert!(report.contains("  S3 (128 MB)     HW=8.023  Sim=8.0000  Δ=+0.0230\n"));
    assert!(report.contains("Derived ratio C_FC / C_I = 64 / 8 = 8.0000\n"));
    assert!(report.contains("Independent:  |L|=8 loci, |E|=0 edges → C_I  = 8\n"));
    assert!(report.contains("FullyCoupled: |L|=8 loci, |E|=56 edges → C_FC = 64\n"));
    assert!(report.contains("— an 8× structural reduction"));
}
