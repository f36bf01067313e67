use abr_infinity_fabric::fabric_topology::{
    declare_fabric_topology, FABRIC_AGGREGATE_BW_MB_S, FABRIC_N_DIRECTED_LINKS, FABRIC_N_LOCI,
    FABRIC_PER_LINK_BW_MB_S, FABRIC_SWITCH, OAM_BASE,
};

/// MB/s as GB/s.
fn gb_s(mb_s: u128) -> f64 {
    mb_s as f64 / 1000.0
}

#[test]
fn fabric_locus_count() {
    assert_eq!(FABRIC_N_LOCI, 9, "Fabric must have 9 loci: 8 OAM modules + 1 switch");
}

#[test]
fn fabric_edge_count() {
    let t = declare_fabric_topology();
    assert_eq!(t.n_edges(), 16, "Fabric must have 16 directed edges");
}

#[test]
fn all_modules_have_egress_to_switch() {
    let t = declare_fabric_topology();
    for i in 0..8 {
        let all_edges = t.edges_from(OAM_BASE + i);
        let egress: Vec<_> = all_edges.iter().filter(|e| e.target == FABRIC_SWITCH).collect();
        assert_eq!(egress.len(), 1, "OAM module {} must have exactly one egress to switch", i);
    }
}

#[test]
fn all_modules_receive_from_switch() {
    let t = declare_fabric_topology();
    for i in 0..8 {
        let all_edges = t.edges_to(OAM_BASE + i);
        let ingress: Vec<_> = all_edges.iter().filter(|e| e.source == FABRIC_SWITCH).collect();
        assert_eq!(ingress.len(), 1, "OAM module {} must receive exactly one ingress from switch", i);
    }
}

#[test]
fn ring_inadmissibility_passes() {
    let t = declare_fabric_topology();
    assert!(t.ring_inadmissibility_check(),
        "Declared fabric topology must pass ring inadmissibility check");
}

#[test]
fn fabric_topology_all_edges_have_provenance() {
    let t = declare_fabric_topology();
    for edge in &t.edges {
        assert!(!edge.provenance.is_empty(),
            "Every declared fabric edge must have observable provenance");
    }
}

#[test]
fn per_link_bandwidth_derived_from_aggregate() {
    // 1194.8 / 16 = 74.675 GB/s
    let expected = gb_s(FABRIC_AGGREGATE_BW_MB_S as u128) / FABRIC_N_DIRECTED_LINKS as f64;
    assert!((gb_s(FABRIC_PER_LINK_BW_MB_S as u128) - expected).abs() < 1e-6,
        "Per-link bandwidth must equal aggregate / n_links");
}

#[test]
fn aggregate_bandwidth_declared_correctly() {
    // 16 x 74.675 = 1194.8 GB/s
    let t = declare_fabric_topology();
    let (total, declared) = t.aggregate_bandwidth_check();
    assert!((gb_s(total) - gb_s(declared as u128)).abs() < 1e-6,
        "Sum of all link bandwidths must equal declared aggregate: got {:.1}, expected {:.1}",
        gb_s(total), gb_s(declared as u128));
}

#[test]
fn module_to_module_edges_absent() {
    let t = declare_fabric_topology();
    for edge in &t.edges {
        let source_is_module = edge.source < 8;
        let target_is_module = edge.target < 8;
        assert!(!(source_is_module && target_is_module),
            "Direct module-to-module edge found: {} -> {}", edge.source, edge.target);
    }
}

#[test]
fn switch_is_not_source_to_itself() {
    let t = declare_fabric_topology();
    for edge in &t.edges {
        assert_ne!(edge.source, edge.target, "Self-loop detected at locus {}", edge.source);
    }
}

#[test]
fn bandwidth_per_link_positive_finite() {
    let per_link = gb_s(FABRIC_PER_LINK_BW_MB_S as u128);
    assert!(per_link > 0.0 && per_link.is_finite(),
        "Per-link bandwidth must be positive and finite");
}

#[test]
fn per_link_bandwidth_is_exact() {
    assert_eq!(FABRIC_PER_LINK_BW_MB_S, 74_675);
    assert_eq!(FABRIC_PER_LINK_BW_MB_S * 16, FABRIC_AGGREGATE_BW_MB_S);
}

#[test]
fn egress_and_ingress_bandwidth_per_locus() {
    let t = declare_fabric_topology();
    for i in 0..8 {
        assert_eq!(t.egress_bandwidth_gb_s(i), 74_675);
        assert_eq!(t.ingress_bandwidth_gb_s(i), 74_675);
    }
    assert_eq!(t.egress_bandwidth_gb_s(FABRIC_SWITCH), 597_400);
    assert_eq!(t.ingress_bandwidth_gb_s(FABRIC_SWITCH), 597_400);
    assert_eq!(t.egress_bandwidth_gb_s(9), 0);
}

#[test]
fn edges_listed_in_declaration_order() {
    let t = declare_fabric_topology();
    let from_switch = t.edges_from(FABRIC_SWITCH);
    assert_eq!(from_switch.len(), 8);
    for (k, e) in from_switch.iter().enumerate() {
        assert_eq!(e.target, k);
    }
    let to_switch = t.edges_to(FABRIC_SWITCH);
    for (k, e) in to_switch.iter().enumerate() {
        assert_eq!(e.source, k);
    }
}

#[test]
fn ring_check_rejects_module_to_module_edge() {
    let mut t = declare_fabric_topology();
    t.edges[3].target = 5;
    assert!(!t.ring_inadmissibility_check());
    let mut t = declare_fabric_topology();
    t.edges[9].target = FABRIC_SWITCH;
    assert!(!t.ring_inadmissibility_check());
}
