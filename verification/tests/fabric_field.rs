use abr_infinity_fabric::fabric_field::{
    declare_bandwidth_field, fabric_contrast, identify_bottleneck, operator_a_fabric,
    FabricBandwidthField, OAM_MEMORY_BW_MB_S,
};
use abr_infinity_fabric::fabric_topology::{
    declare_fabric_topology, FabricEdge, FabricTopology, FABRIC_AGGREGATE_BW_MB_S, FABRIC_SWITCH,
    OAM_BASE,
};

/// MB/s as GB/s.
fn gb_s(mb_s: i128) -> f64 {
    mb_s as f64 / 1000.0
}

#[test]
fn oam_modules_at_declared_bandwidth() {
    let t = declare_fabric_topology();
    let f = declare_bandwidth_field(t.n_loci);
    for i in 0..8 {
        assert!((gb_s(f.bandwidth_mb_s[OAM_BASE + i] as i128) - gb_s(OAM_MEMORY_BW_MB_S as i128)).abs() < 1e-6,
            "OAM module {} must be at declared memory bandwidth", i);
    }
}

#[test]
fn switch_at_declared_aggregate_bandwidth() {
    let t = declare_fabric_topology();
    let f = declare_bandwidth_field(t.n_loci);
    assert!((gb_s(f.bandwidth_mb_s[FABRIC_SWITCH] as i128) - gb_s(FABRIC_AGGREGATE_BW_MB_S as i128)).abs() < 1e-6,
        "Switch must be at declared aggregate P2P bandwidth");
}

#[test]
fn a_operator_sign_consistent_with_kernel() {
    let t = declare_fabric_topology();
    let f = declare_bandwidth_field(t.n_loci);
    let a = operator_a_fabric(&f, &t);
    for (idx, edge) in t.edges.iter().enumerate() {
        let expected = f.bandwidth_mb_s[edge.source] as i128 - f.bandwidth_mb_s[edge.target] as i128;
        assert!((gb_s(a[idx]) - gb_s(expected)).abs() < 1e-6,
            "A operator must equal x[source] - x[target] at edge {}", idx);
    }
}

#[test]
fn a_positive_at_module_to_switch_edges() {
    // 8000 - 1194.8 = +6805.2 GB/s
    let t = declare_fabric_topology();
    let f = declare_bandwidth_field(t.n_loci);
    let a = operator_a_fabric(&f, &t);
    for i in 0..8 {
        assert!(a[i] > 0, "A at OAM_{}->Switch must be positive", i);
    }
    assert_eq!(a[0], 6_805_200);
}

#[test]
fn a_negative_at_switch_to_module_edges() {
    let t = declare_fabric_topology();
    let f = declare_bandwidth_field(t.n_loci);
    let a = operator_a_fabric(&f, &t);
    for i in 8..16 {
        assert!(a[i] < 0, "A at Switch->OAM must be negative");
    }
}

#[test]
fn a_antisymmetric_across_directions() {
    let t = declare_fabric_topology();
    let f = declare_bandwidth_field(t.n_loci);
    let a = operator_a_fabric(&f, &t);
    for i in 0..8 {
        let module_to_switch = a[i];
        let switch_to_module = a[i + 8];
        assert!((gb_s(module_to_switch) + gb_s(switch_to_module)).abs() < 1e-6,
            "A values must be equal and opposite for module {} bidirectional pair", i);
    }
}

#[test]
fn bottleneck_identified_as_switch() {
    let t = declare_fabric_topology();
    let f = declare_bandwidth_field(t.n_loci);
    let bottleneck = identify_bottleneck(&f, &t);
    assert_eq!(bottleneck, FABRIC_SWITCH,
        "Declared bottleneck must be FABRIC_SWITCH");
}

#[test]
fn bandwidth_field_finite() {
    let t = declare_fabric_topology();
    let f = declare_bandwidth_field(t.n_loci);
    assert!(f.bandwidth_mb_s.iter().all(|v| gb_s(*v as i128).is_finite()),
        "All bandwidth field values must be finite");
}

#[test]
fn oam_bandwidth_declared_from_specification() {
    // 8.0 TB/s = 8,000 GB/s
    assert!((gb_s(OAM_MEMORY_BW_MB_S as i128) - 8_000.0).abs() < 1e-6,
        "OAM memory bandwidth must be 8,000 GB/s (8.0 TB/s from AMD spec)");
}

#[test]
fn field_beyond_switch_is_zero() {
    let f = declare_bandwidth_field(11);
    assert_eq!(f.bandwidth_mb_s.len(), 11);
    assert_eq!(f.bandwidth_mb_s[9], 0);
    assert_eq!(f.bandwidth_mb_s[10], 0);
}

#[test]
fn contrast_sorted_by_magnitude_stably() {
    let t = declare_fabric_topology();
    let a: Vec<i128> = vec![5, -7, 7, 0, -5];
    let c = fabric_contrast(&a, &t);
    let order: Vec<usize> = c.iter().map(|e| e.0).collect();
    assert_eq!(order, vec![1, 2, 0, 4, 3]);
    assert_eq!(c[0], (1, t.edges[1].source, t.edges[1].target, -7));
}

#[test]
fn contrast_of_declared_field_keeps_edge_order_on_ties() {
    let t = declare_fabric_topology();
    let f = declare_bandwidth_field(t.n_loci);
    let a = operator_a_fabric(&f, &t);
    let c = fabric_contrast(&a, &t);
    assert_eq!(c.len(), 16);
    for (k, e) in c.iter().enumerate() {
        assert_eq!(e.0, k);
    }
}

#[test]
fn bottleneck_takes_last_of_equal_pressures() {
    let field = FabricBandwidthField { bandwidth_mb_s: vec![10, 10, 4, 4] };
    let edge = |source: usize, target: usize| FabricEdge {
        source,
        target,
        bandwidth_mb_s: 1,
        provenance: "test",
    };
    let topology = FabricTopology { n_loci: 4, edges: vec![edge(0, 2), edge(1, 3)] };
    assert_eq!(identify_bottleneck(&field, &topology), 3);
    let empty = FabricTopology { n_loci: 0, edges: Vec::new() };
    assert_eq!(identify_bottleneck(&field, &empty), FABRIC_SWITCH);
}
