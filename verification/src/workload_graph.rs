//! Community analysis graph declared as a partitionable workload structure.
use vstd::prelude::*;

verus! {

/// Declared working set per community analysis, in bytes (1 MiB upper bound).
pub const COMMUNITY_WORKING_SET_BYTES: u64 = 1_048_576;

/// Memory capacity of one accelerator module, in bytes (288 GiB).
pub const HBM3E_BYTES_PER_MODULE: u64 = 309_237_645_312;

/// Number of accelerator modules available for partitioning a workload.
pub const N_OAM_MODULES: usize = 8;

/// Category of declared observable that a community graph locus stands for.
#[derive(Debug, Clone, Copy, PartialEq, Eq, Structural)]
pub enum CommunityLocus {
    /// Grid reliability observable (SAIDI, CAIDI, outage frequency).
    GridReliability,
    /// Demand anchor observable (facility demand, employment, fiscal impact).
    DemandAnchor,
    /// Thermal demand observable (community heat absorption capacity).
    ThermalDemand,
    /// Infrastructure observable (grid capacity, transmission constraints).
    Infrastructure,
}

/// Kind of a declared community graph edge.
#[derive(Debug, Clone, Copy, PartialEq, Eq, Structural)]
pub enum CommunityEdgeType {
    /// Within-category observable dependency.
    SpatialContinuation,
    /// Cross-category relational dependency.
    Coupling,
    /// Evolution across declared measurement steps.
    Persistence,
}

/// A declared locus of a community analysis graph.
#[derive(Debug, Clone)]
pub struct CommunityGraphLocus {
    /// Locus index.
    pub index: usize,
    /// Observable category of the locus.
    pub locus_type: CommunityLocus,
    /// Name of the declared observable.
    pub observable_name: &'static str,
}

/// A declared directed edge of a community analysis graph.
#[derive(Debug, Clone)]
pub struct CommunityGraphEdge {
    /// Source locus index.
    pub source: usize,
    /// Target locus index.
    pub target: usize,
    /// Kind of the dependency.
    pub edge_type: CommunityEdgeType,
    /// Observable property that establishes the direction of the edge.
    pub provenance: &'static str,
}

/// One community's declared relational structure.
#[derive(Debug, Clone)]
pub struct CommunityWorkloadGraph {
    /// Community name.
    pub name: &'static str,
    /// Declared loci.
    pub loci: Vec<CommunityGraphLocus>,
    /// Declared edges.
    pub edges: Vec<CommunityGraphEdge>,
    /// Working set of one analysis, in bytes.
    pub working_set_bytes: u64,
}

/// Whether a working set of `ws` bytes fits in one module's memory.
pub open spec fn fits_in_hbm(ws: u64) -> bool {
    ws <= HBM3E_BYTES_PER_MODULE
}

/// How many analyses with a working set of `ws` bytes one module holds at once
/// (none when the working set is empty).
pub open spec fn copies_per_module(ws: u64) -> u64 {
    if ws == 0 {
        0
    } else {
        (HBM3E_BYTES_PER_MODULE / ws) as u64
    }
}

impl CommunityWorkloadGraph {
    /// Number of declared loci.
    pub fn n_loci(&self) -> (r: usize)
        ensures
            r == self.loci@.len(),
    {
        self.loci.len()
    }

    /// Number of declared edges.
    pub fn n_edges(&self) -> (r: usize)
        ensures
            r == self.edges@.len(),
    {
        self.edges.len()
    }

    /// Whether the working set fits within one module's memory.
    pub fn fits_in_module(&self) -> (r: bool)
        ensures
            r == fits_in_hbm(self.working_set_bytes),
    {
        self.working_set_bytes <= HBM3E_BYTES_PER_MODULE
    }

    /// How many copies of this graph's analysis fit in one module at once.
    pub fn simultaneous_per_module(&self) -> (r: u64)
        ensures
            r == copies_per_module(self.working_set_bytes),
            self.working_set_bytes > 0 ==> (r >= 1 <==> fits_in_hbm(self.working_set_bytes)),
            r * self.working_set_bytes <= HBM3E_BYTES_PER_MODULE,
    {
        if self.working_set_bytes == 0 {
            return 0;
        }
        let r = HBM3E_BYTES_PER_MODULE / self.working_set_bytes;
        proof {
            let ws = self.working_set_bytes;
            assert(r * ws <= HBM3E_BYTES_PER_MODULE) by (nonlinear_arith)
                requires
                    ws > 0,
                    r == HBM3E_BYTES_PER_MODULE / ws,
            ;
            assert(r >= 1 <==> ws <= HBM3E_BYTES_PER_MODULE) by (nonlinear_arith)
                requires
                    ws > 0,
                    r == HBM3E_BYTES_PER_MODULE / ws,
            ;
        }
        r
    }

    /// Total analyses held at once across all modules of the platform.
    pub fn total_simultaneous_rack(&self) -> (r: u64)
        ensures
            r == copies_per_module(self.working_set_bytes) * N_OAM_MODULES,
    {
        let per_module = self.simultaneous_per_module();
        per_module * (N_OAM_MODULES as u64)
    }
}


/// Observable category of each locus of the Lompoc graph, by locus index.
pub open spec fn lompoc_locus_types() -> Seq<CommunityLocus> {
    seq![
        CommunityLocus::GridReliability,
        CommunityLocus::GridReliability,
        CommunityLocus::DemandAnchor,
        CommunityLocus::DemandAnchor,
        CommunityLocus::DemandAnchor,
        CommunityLocus::ThermalDemand,
        CommunityLocus::Infrastructure,
        CommunityLocus::Infrastructure,
    ]
}

/// Source, target and kind of each edge of the Lompoc graph, in declaration order.
pub open spec fn lompoc_edge_shape() -> Seq<(usize, usize, CommunityEdgeType)> {
    seq![
        (0usize, 2usize, CommunityEdgeType::Coupling),
        (2usize, 6usize, CommunityEdgeType::Coupling),
        (3usize, 6usize, CommunityEdgeType::Coupling),
        (6usize, 5usize, CommunityEdgeType::Coupling),
        (6usize, 7usize, CommunityEdgeType::SpatialContinuation),
        (4usize, 2usize, CommunityEdgeType::SpatialContinuation),
    ]
}

/// An edge's kind agrees with the categories of its endpoints: a spatial
/// continuation joins two loci of one category, a coupling joins loci of two
/// different categories.
pub open spec fn edge_kind_fits(loci: Seq<CommunityGraphLocus>, e: CommunityGraphEdge) -> bool {
    let same = loci[e.source as int].locus_type == loci[e.target as int].locus_type;
    &&& e.source < loci.len()
    &&& e.target < loci.len()
    &&& e.edge_type == CommunityEdgeType::SpatialContinuation ==> same
    &&& e.edge_type == CommunityEdgeType::Coupling ==> !same
}

/// Observable name of each locus of the Lompoc graph, by locus index.
pub open spec fn lompoc_observable_names() -> Seq<&'static str> {
    seq![
        "SAIDI_minutes_per_customer_year",
        "CAIDI_minutes_per_interruption",
        "vandenberg_processing_budget_annual_dollars",
        "agricultural_sector_demand_mw",
        "municipal_tax_revenue_per_facility_dollar",
        "community_heat_absorption_capacity_mw",
        "grid_capacity_mw",
        "transmission_constraint_mw",
    ]
}

/// Provenance of each edge of the Lompoc graph, in declaration order.
pub open spec fn lompoc_provenances() -> Seq<&'static str> {
    seq![
        "Grid reliability drives demand anchor viability: SAIDI reduction correlates with anchor stability — declared from abr-community-grid-match through M",
        "Demand anchor demand against grid capacity: declared load relationship through M",
        "Agricultural sector demand against grid capacity: declared load relationship through M",
        "Grid capacity determines viable facility size, which determines thermal output — declared through M",
        "Grid capacity to transmission constraint: within-infrastructure observable dependency through M",
        "Tax revenue per facility dollar grounds demand anchor economic viability — declared through M",
    ]
}

fn locus(index: usize, locus_type: CommunityLocus, observable_name: &'static str) -> (r:
    CommunityGraphLocus)
    ensures
        r.index == index,
        r.locus_type == locus_type,
        r.observable_name == observable_name,
{
    CommunityGraphLocus { index, locus_type, observable_name }
}

fn edge(
    source: usize,
    target: usize,
    edge_type: CommunityEdgeType,
    provenance: &'static str,
) -> (r: CommunityGraphEdge)
    ensures
        r.source == source,
        r.target == target,
        r.edge_type == edge_type,
        r.provenance == provenance,
{
    CommunityGraphEdge { source, target, edge_type, provenance }
}

/// Declares the Lompoc community analysis graph: eight observable loci in
/// four categories and six directed dependencies among them.
pub fn declare_lompoc_community_graph() -> (g: CommunityWorkloadGraph)
    ensures
        g.name@ == "Lompoc_CA"@,
        g.working_set_bytes == COMMUNITY_WORKING_SET_BYTES,
        g.loci@.len() == 8,
        forall|i: int|
            0 <= i < 8 ==> {
                &&& (#[trigger] g.loci@[i]).index == i
                &&& g.loci@[i].locus_type == lompoc_locus_types()[i]
                &&& g.loci@[i].observable_name == lompoc_observable_names()[i]
                &&& g.loci@[i].observable_name@.len() > 0
            },
        g.edges@.len() == 6,
        forall|i: int|
            0 <= i < 6 ==> {
                &&& (#[trigger] g.edges@[i]).source == lompoc_edge_shape()[i].0
                &&& g.edges@[i].target == lompoc_edge_shape()[i].1
                &&& g.edges@[i].edge_type == lompoc_edge_shape()[i].2
                &&& g.edges@[i].provenance == lompoc_provenances()[i]
                &&& g.edges@[i].provenance@.len() > 0
                &&& edge_kind_fits(g.loci@, g.edges@[i])
            },
{
    let mut loci: Vec<CommunityGraphLocus> = Vec::new();
    proof {
        reveal_strlit("SAIDI_minutes_per_customer_year");
        reveal_strlit("CAIDI_minutes_per_interruption");
        reveal_strlit("vandenberg_processing_budget_annual_dollars");
        reveal_strlit("agricultural_sector_demand_mw");
        reveal_strlit("municipal_tax_revenue_per_facility_dollar");
        reveal_strlit("community_heat_absorption_capacity_mw");
        reveal_strlit("grid_capacity_mw");
        reveal_strlit("transmission_constraint_mw");
    }
    loci.push(locus(0, CommunityLocus::GridReliability, "SAIDI_minutes_per_customer_year"));
    loci.push(locus(1, CommunityLocus::GridReliability, "CAIDI_minutes_per_interruption"));
    loci.push(
        locus(2, CommunityLocus::DemandAnchor, "vandenberg_processing_budget_annual_dollars"),
    );
    loci.push(locus(3, CommunityLocus::DemandAnchor, "agricultural_sector_demand_mw"));
    loci.push(
        locus(4, CommunityLocus::DemandAnchor, "municipal_tax_revenue_per_facility_dollar"),
    );
    loci.push(
        locus(5, CommunityLocus::ThermalDemand, "community_heat_absorption_capacity_mw"),
    );
    loci.push(locus(6, CommunityLocus::Infrastructure, "grid_capacity_mw"));
    loci.push(locus(7, CommunityLocus::Infrastructure, "transmission_constraint_mw"));

    let p0 = "Grid reliability drives demand anchor viability: SAIDI reduction correlates with anchor stability — declared from abr-community-grid-match through M";
    let p1 = "Demand anchor demand against grid capacity: declared load relationship through M";
    let p2 = "Agricultural sector demand against grid capacity: declared load relationship through M";
    let p3 = "Grid capacity determines viable facility size, which determines thermal output — declared through M";
    let p4 = "Grid capacity to transmission constraint: within-infrastructure observable dependency through M";
    let p5 = "Tax revenue per facility dollar grounds demand anchor economic viability — declared through M";
    proof {
        reveal_strlit("Grid reliability drives demand anchor viability: SAIDI reduction correlates with anchor stability — declared from abr-community-grid-match through M");
        reveal_strlit("Demand anchor demand against grid capacity: declared load relationship through M");
        reveal_strlit("Agricultural sector demand against grid capacity: declared load relationship through M");
        reveal_strlit("Grid capacity determines viable facility size, which determines thermal output — declared through M");
        reveal_strlit("Grid capacity to transmission constraint: within-infrastructure observable dependency through M");
        reveal_strlit("Tax revenue per facility dollar grounds demand anchor economic viability — declared through M");
    }
    let mut edges: Vec<CommunityGraphEdge> = Vec::new();
    edges.push(edge(0, 2, CommunityEdgeType::Coupling, p0));
    edges.push(edge(2, 6, CommunityEdgeType::Coupling, p1));
    edges.push(edge(3, 6, CommunityEdgeType::Coupling, p2));
    edges.push(edge(6, 5, CommunityEdgeType::Coupling, p3));
    edges.push(edge(6, 7, CommunityEdgeType::SpatialContinuation, p4));
    edges.push(edge(4, 2, CommunityEdgeType::SpatialContinuation, p5));

    CommunityWorkloadGraph {
        name: "Lompoc_CA",
        loci,
        edges,
        working_set_bytes: COMMUNITY_WORKING_SET_BYTES,
    }
}

/// A share of a community graph assigned to one accelerator module.
#[derive(Debug, Clone)]
pub struct GraphPartition {
    /// Module this partition is assigned to.
    pub module_index: usize,
    /// Locus indices in this partition.
    pub locus_indices: Vec<usize>,
    /// Edges entirely within this partition.
    pub intra_edges: Vec<CommunityGraphEdge>,
    /// Edges that cross to other partitions.
    pub inter_edges: Vec<CommunityGraphEdge>,
    /// Working set of this partition, in bytes.
    pub partition_working_set_bytes: u64,
}

impl GraphPartition {
    /// Whether the partition's working set fits within one module's memory.
    pub fn fits_in_module(&self) -> (r: bool)
        ensures
            r == fits_in_hbm(self.partition_working_set_bytes),
    {
        self.partition_working_set_bytes <= HBM3E_BYTES_PER_MODULE
    }
}

} // verus!
