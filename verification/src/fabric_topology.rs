//! The Infinity Fabric interconnect declared as a directed relational graph:
//! eight accelerator modules and one crossbar switch, each module linked to
//! the switch by one edge in each direction.
use vstd::prelude::*;
use crate::seq_lemmas::{lemma_filter_push, lemma_filter_take_step};

verus! {

/// Number of declared fabric loci: eight accelerator modules and one switch.
pub const FABRIC_N_LOCI: usize = 9;

/// Index of the first accelerator module; modules occupy indices 0 to 7.
pub const OAM_BASE: usize = 0;

/// Index of the Infinity Fabric crossbar switch.
pub const FABRIC_SWITCH: usize = 8;

/// Total aggregate bi-directional peer-to-peer bandwidth of the fabric,
/// in MB/s (1,194.8 GB/s).
pub const FABRIC_AGGREGATE_BW_MB_S: u64 = 1_194_800;

/// Number of directed fabric links: eight modules, two directions each.
pub const FABRIC_N_DIRECTED_LINKS: usize = 16;

/// Bandwidth of one directed link, in MB/s: the aggregate shared evenly by the
/// sixteen directed links (74.675 GB/s).
pub const FABRIC_PER_LINK_BW_MB_S: u64 = FABRIC_AGGREGATE_BW_MB_S / 16;

/// Provenance of the module-to-switch edges.
pub const MODULE_TO_SWITCH_PROVENANCE: &'static str = "Infinity Fabric: OAM module initiates transfer to fabric switch — declared from AMD MI355X platform specification through M";

/// Provenance of the switch-to-module edges, independent of the other direction.
pub const SWITCH_TO_MODULE_PROVENANCE: &'static str = "Infinity Fabric: fabric switch routes to receiving OAM module — independent provenance from module→switch per D-2 directional distinctness";

/// A declared directed edge of the fabric topology.
#[derive(Debug, Clone, Copy, PartialEq)]
pub struct FabricEdge {
    /// Source locus index.
    pub source: usize,
    /// Target locus index.
    pub target: usize,
    /// Declared bandwidth of the link, in MB/s.
    pub bandwidth_mb_s: u64,
    /// Observable property that establishes the direction of the edge.
    pub provenance: &'static str,
}

/// The declared fabric topology.
#[derive(Debug, Clone)]
pub struct FabricTopology {
    /// Number of declared loci.
    pub n_loci: usize,
    /// All declared directed edges.
    pub edges: Vec<FabricEdge>,
}

/// Source, target and bandwidth of the `k`-th edge of the declared fabric:
/// module `k` to the switch for `k < 8`, the switch to module `k - 8` after.
pub open spec fn declared_fabric_edge(k: int) -> (usize, usize, u64) {
    if k < 8 {
        ((OAM_BASE + k) as usize, FABRIC_SWITCH, FABRIC_PER_LINK_BW_MB_S)
    } else {
        (FABRIC_SWITCH, (OAM_BASE + k - 8) as usize, FABRIC_PER_LINK_BW_MB_S)
    }
}

/// An edge is admissible when it is no self-loop and does not join two
/// modules directly: all inter-module traffic routes through the switch.
pub open spec fn edge_admissible(e: FabricEdge) -> bool {
    e.source != e.target && !(e.source < 8 && e.target < 8)
}

/// Every edge of the sequence is admissible (no rings).
pub open spec fn ring_admissible(edges: Seq<FabricEdge>) -> bool {
    forall|i: int| 0 <= i < edges.len() ==> #[trigger] edge_admissible(edges[i])
}

/// Sum of the declared bandwidths of a sequence of edges, in MB/s.
pub open spec fn bw_sum(edges: Seq<FabricEdge>) -> int
    decreases edges.len(),
{
    if edges.len() == 0 {
        0
    } else {
        bw_sum(edges.drop_last()) + edges.last().bandwidth_mb_s
    }
}

/// Edges leaving `locus`, in declaration order.
pub open spec fn edges_leaving(edges: Seq<FabricEdge>, locus: usize) -> Seq<FabricEdge> {
    edges.filter(|e: FabricEdge| e.source == locus)
}

/// Edges arriving at `locus`, in declaration order.
pub open spec fn edges_arriving(edges: Seq<FabricEdge>, locus: usize) -> Seq<FabricEdge> {
    edges.filter(|e: FabricEdge| e.target == locus)
}


/// The sum of `n` edge bandwidths is at most `n` times the largest `u64`.
pub proof fn lemma_bw_sum_bound(edges: Seq<FabricEdge>)
    ensures
        0 <= bw_sum(edges) <= edges.len() * (u64::MAX as int),
    decreases edges.len(),
{
    if edges.len() > 0 {
        lemma_bw_sum_bound(edges.drop_last());
    }
}

/// A sequence of edges that all carry bandwidth `c` sums to its length times `c`.
pub proof fn lemma_bw_sum_uniform(edges: Seq<FabricEdge>, c: u64)
    requires
        forall|i: int| 0 <= i < edges.len() ==> (#[trigger] edges[i]).bandwidth_mb_s == c,
    ensures
        bw_sum(edges) == edges.len() * c,
    decreases edges.len(),
{
    if edges.len() > 0 {
        lemma_bw_sum_uniform(edges.drop_last(), c);
        assert(edges.len() * c == (edges.len() - 1) * c + c) by (nonlinear_arith);
    }
}

/// Bandwidth adds up over concatenation: the edges of `s` followed by those
/// of `t` carry the bandwidth of `s` plus the bandwidth of `t`, each edge
/// counted once with its own bandwidth.
pub proof fn lemma_bw_sum_concat(s: Seq<FabricEdge>, t: Seq<FabricEdge>)
    ensures
        bw_sum(s + t) == bw_sum(s) + bw_sum(t),
    decreases t.len(),
{
    if t.len() == 0 {
        assert(s + t =~= s);
    } else {
        assert((s + t).drop_last() =~= s + t.drop_last());
        lemma_bw_sum_concat(s, t.drop_last());
    }
}

/// One edge carries its own bandwidth, and no edges carry none.
pub proof fn lemma_bw_sum_single(e: FabricEdge)
    ensures
        bw_sum(seq![e]) == e.bandwidth_mb_s,
        bw_sum(Seq::<FabricEdge>::empty()) == 0,
{
    assert(seq![e].drop_last() =~= Seq::<FabricEdge>::empty());
    assert(bw_sum(Seq::<FabricEdge>::empty()) == 0);
    assert(seq![e].last() == e);
}

/// Appending an edge of bandwidth `b` raises the sum by exactly `b`.
pub proof fn lemma_bw_sum_push(s: Seq<FabricEdge>, e: FabricEdge)
    ensures
        bw_sum(s.push(e)) == bw_sum(s) + e.bandwidth_mb_s,
{
    lemma_bw_sum_single(e);
    assert(s.push(e) =~= s + seq![e]);
    lemma_bw_sum_concat(s, seq![e]);
}

/// Egress and ingress bandwidth follow the edges: appending an edge raises
/// the egress of its source and the ingress of its target by exactly its
/// bandwidth, and leaves every other locus's egress and ingress unchanged.
pub proof fn lemma_locus_bandwidth_push(edges: Seq<FabricEdge>, e: FabricEdge, locus: usize)
    ensures
        bw_sum(edges_leaving(edges.push(e), locus)) == bw_sum(edges_leaving(edges, locus)) + (if e.source
            == locus {
            e.bandwidth_mb_s as int
        } else {
            0
        }),
        bw_sum(edges_arriving(edges.push(e), locus)) == bw_sum(edges_arriving(edges, locus)) + (if e.target
            == locus {
            e.bandwidth_mb_s as int
        } else {
            0
        }),
{
    lemma_filter_push(edges, e, |x: FabricEdge| x.source == locus);
    lemma_filter_push(edges, e, |x: FabricEdge| x.target == locus);
    lemma_bw_sum_push(edges_leaving(edges, locus), e);
    lemma_bw_sum_push(edges_arriving(edges, locus), e);
}

/// An edge that joins two modules (both below the switch's index) makes a
/// topology inadmissible: inter-module traffic must route through the
/// switch. This holds for every pair of modules, module 7 included.
pub proof fn lemma_module_link_inadmissible(edges: Seq<FabricEdge>, k: int)
    requires
        0 <= k < edges.len(),
        edges[k].source < FABRIC_SWITCH,
        edges[k].target < FABRIC_SWITCH,
    ensures
        !ring_admissible(edges),
{
    assert(!edge_admissible(edges[k]));
}

/// A self-loop makes a topology inadmissible.
pub proof fn lemma_self_loop_inadmissible(edges: Seq<FabricEdge>, k: int)
    requires
        0 <= k < edges.len(),
        edges[k].source == edges[k].target,
    ensures
        !ring_admissible(edges),
{
    assert(!edge_admissible(edges[k]));
}

/// A topology whose every edge joins the switch to another locus is
/// admissible.
pub proof fn lemma_switch_links_admissible(edges: Seq<FabricEdge>)
    requires
        forall|k: int|
            0 <= k < edges.len() ==> ((#[trigger] edges[k]).source == FABRIC_SWITCH
                || edges[k].target == FABRIC_SWITCH) && edges[k].source != edges[k].target,
    ensures
        ring_admissible(edges),
{
}

/// Sums the bandwidths of `edges` in MB/s; the sum always fits in a `u128`.
fn sum_bandwidth(edges: &Vec<&FabricEdge>) -> (total: u128)
    ensures
        total == bw_sum(edges@.map_values(|e: &FabricEdge| *e)),
{
    let ghost s = edges@.map_values(|e: &FabricEdge| *e);
    let mut total: u128 = 0;
    let mut i: usize = 0;
    while i < edges.len()
        invariant
            i <= edges.len(),
            s == edges@.map_values(|e: &FabricEdge| *e),
            total == bw_sum(s.take(i as int)),
        decreases edges.len() - i,
    {
        proof {
            assert(s.take(i + 1).drop_last() =~= s.take(i as int));
            lemma_bw_sum_bound(s.take(i as int));
            assert(i * (u64::MAX as int) + (u64::MAX as int) <= (usize::MAX as int + 1) * (
            u64::MAX as int)) by (nonlinear_arith)
                requires
                    i < usize::MAX,
            ;
            assert((usize::MAX as int + 1) * (u64::MAX as int) < u128::MAX) by (nonlinear_arith)
                requires
                    usize::MAX <= u64::MAX,
            ;
        }
        total = total + edges[i].bandwidth_mb_s as u128;
        i = i + 1;
    }
    assert(s.take(edges.len() as int) =~= s);
    total
}

fn fabric_edge(source: usize, target: usize, provenance: &'static str) -> (e: FabricEdge)
    ensures
        e.source == source,
        e.target == target,
        e.bandwidth_mb_s == FABRIC_PER_LINK_BW_MB_S,
        e.provenance == provenance,
{
    FabricEdge { source, target, bandwidth_mb_s: FABRIC_PER_LINK_BW_MB_S, provenance }
}

/// Declares the fabric topology: nine loci and sixteen directed edges, module
/// to switch first, then switch to module, every edge with its provenance.
/// The declared topology has no rings, and its link bandwidths add up to the
/// declared aggregate.
pub fn declare_fabric_topology() -> (t: FabricTopology)
    ensures
        t.n_loci == FABRIC_N_LOCI,
        t.edges@.len() == FABRIC_N_DIRECTED_LINKS,
        forall|k: int|
            0 <= k < 16 ==> {
                &&& (#[trigger] t.edges@[k]).source == declared_fabric_edge(k).0
                &&& t.edges@[k].target == declared_fabric_edge(k).1
                &&& t.edges@[k].bandwidth_mb_s == declared_fabric_edge(k).2
                &&& t.edges@[k].provenance == if k < 8 {
                    MODULE_TO_SWITCH_PROVENANCE
                } else {
                    SWITCH_TO_MODULE_PROVENANCE
                }
                &&& t.edges@[k].provenance@.len() > 0
            },
        ring_admissible(t.edges@),
        bw_sum(t.edges@) == FABRIC_AGGREGATE_BW_MB_S,
{
    let to_switch = MODULE_TO_SWITCH_PROVENANCE;
    let from_switch = SWITCH_TO_MODULE_PROVENANCE;
    proof {
        reveal_strlit("Infinity Fabric: OAM module initiates transfer to fabric switch — declared from AMD MI355X platform specification through M");
        reveal_strlit("Infinity Fabric: fabric switch routes to receiving OAM module — independent provenance from module→switch per D-2 directional distinctness");
    }
    let mut edges: Vec<FabricEdge> = Vec::new();
    for i in 0..8
        invariant
            edges@.len() == i,
            to_switch == MODULE_TO_SWITCH_PROVENANCE,
            to_switch@.len() > 0,
            forall|k: int|
                0 <= k < i ==> {
                    &&& (#[trigger] edges@[k]).source == declared_fabric_edge(k).0
                    &&& edges@[k].target == declared_fabric_edge(k).1
                    &&& edges@[k].bandwidth_mb_s == declared_fabric_edge(k).2
                    &&& edges@[k].provenance == if k < 8 {
                        MODULE_TO_SWITCH_PROVENANCE
                    } else {
                        SWITCH_TO_MODULE_PROVENANCE
                    }
                    &&& edges@[k].provenance@.len() > 0
                },
    {
        edges.push(fabric_edge(OAM_BASE + i, FABRIC_SWITCH, to_switch));
    }
    for i in 0..8
        invariant
            edges@.len() == 8 + i,
            from_switch == SWITCH_TO_MODULE_PROVENANCE,
            from_switch@.len() > 0,
            forall|k: int|
                0 <= k < 8 + i ==> {
                    &&& (#[trigger] edges@[k]).source == declared_fabric_edge(k).0
                    &&& edges@[k].target == declared_fabric_edge(k).1
                    &&& edges@[k].bandwidth_mb_s == declared_fabric_edge(k).2
                    &&& edges@[k].provenance == if k < 8 {
                        MODULE_TO_SWITCH_PROVENANCE
                    } else {
                        SWITCH_TO_MODULE_PROVENANCE
                    }
                    &&& edges@[k].provenance@.len() > 0
                },
    {
        edges.push(fabric_edge(FABRIC_SWITCH, OAM_BASE + i, from_switch));
    }
    proof {
        assert forall|i: int| 0 <= i < edges@.len() implies #[trigger] edge_admissible(
            edges@[i],
        ) by {
            assert(edges@[i].source == declared_fabric_edge(i).0);
        }
        lemma_bw_sum_uniform(edges@, FABRIC_PER_LINK_BW_MB_S);
    }
    FabricTopology { n_loci: FABRIC_N_LOCI, edges }
}

impl FabricTopology {
    /// Total declared edge count.
    pub fn n_edges(&self) -> (r: usize)
        ensures
            r == self.edges@.len(),
    {
        self.edges.len()
    }

    /// Edges leaving `locus`, in declaration order.
    pub fn edges_from(&self, locus: usize) -> (r: Vec<&FabricEdge>)
        ensures
            r@.map_values(|e: &FabricEdge| *e) == edges_leaving(self.edges@, locus),
    {
        let ghost pred = |e: FabricEdge| e.source == locus;
        let mut r: Vec<&FabricEdge> = Vec::new();
        let mut i: usize = 0;
        while i < self.edges.len()
            invariant
                i <= self.edges@.len(),
                pred == (|e: FabricEdge| e.source == locus),
                r@.map_values(|e: &FabricEdge| *e) == self.edges@.take(i as int).filter(pred),
            decreases self.edges@.len() - i,
        {
            proof {
                lemma_filter_take_step(self.edges@, pred, i as int);
            }
            let ghost prev = r@;
            let e = &self.edges[i];
            if e.source == locus {
                r.push(e);
                assert(r@.map_values(|e: &FabricEdge| *e) =~= prev.map_values(
                    |e: &FabricEdge| *e,
                ).push(*e));
            }
            i = i + 1;
        }
        assert(self.edges@.take(self.edges@.len() as int) =~= self.edges@);
        r
    }

    /// Edges arriving at `locus`, in declaration order.
    pub fn edges_to(&self, locus: usize) -> (r: Vec<&FabricEdge>)
        ensures
            r@.map_values(|e: &FabricEdge| *e) == edges_arriving(self.edges@, locus),
    {
        let ghost pred = |e: FabricEdge| e.target == locus;
        let mut r: Vec<&FabricEdge> = Vec::new();
        let mut i: usize = 0;
        while i < self.edges.len()
            invariant
                i <= self.edges@.len(),
                pred == (|e: FabricEdge| e.target == locus),
                r@.map_values(|e: &FabricEdge| *e) == self.edges@.take(i as int).filter(pred),
            decreases self.edges@.len() - i,
        {
            proof {
                lemma_filter_take_step(self.edges@, pred, i as int);
            }
            let ghost prev = r@;
            let e = &self.edges[i];
            if e.target == locus {
                r.push(e);
                assert(r@.map_values(|e: &FabricEdge| *e) =~= prev.map_values(
                    |e: &FabricEdge| *e,
                ).push(*e));
            }
            i = i + 1;
        }
        assert(self.edges@.take(self.edges@.len() as int) =~= self.edges@);
        r
    }

    /// Total declared bandwidth leaving `locus`, in MB/s: the figure in GB/s,
    /// in thousandths, so that it stays an exact integer.
    pub fn egress_bandwidth_gb_s(&self, locus: usize) -> (r: u128)
        ensures
            r == bw_sum(edges_leaving(self.edges@, locus)),
    {
        sum_bandwidth(&self.edges_from(locus))
    }

    /// Total declared bandwidth arriving at `locus`, in MB/s: the figure in
    /// GB/s, in thousandths, so that it stays an exact integer.
    pub fn ingress_bandwidth_gb_s(&self, locus: usize) -> (r: u128)
        ensures
            r == bw_sum(edges_arriving(self.edges@, locus)),
    {
        sum_bandwidth(&self.edges_to(locus))
    }

    /// Ring inadmissibility check: true exactly when no edge is a self-loop
    /// and no edge joins two modules directly.
    pub fn ring_inadmissibility_check(&self) -> (r: bool)
        ensures
            r == ring_admissible(self.edges@),
    {
        let mut i: usize = 0;
        while i < self.edges.len()
            invariant
                i <= self.edges@.len(),
                forall|k: int| 0 <= k < i ==> #[trigger] edge_admissible(self.edges@[k]),
            decreases self.edges@.len() - i,
        {
            let edge = &self.edges[i];
            if edge.source == edge.target {
                assert(!edge_admissible(self.edges@[i as int]));
                return false;
            }
            let source_is_module = edge.source < 8;
            let target_is_module = edge.target < 8;
            if source_is_module && target_is_module {
                assert(!edge_admissible(self.edges@[i as int]));
                return false;
            }
            i = i + 1;
        }
        true
    }

    /// Sum of all link bandwidths beside the declared aggregate, both in MB/s.
    pub fn aggregate_bandwidth_check(&self) -> (r: (u128, u64))
        ensures
            r.0 == bw_sum(self.edges@),
            r.1 == FABRIC_AGGREGATE_BW_MB_S,
    {
        let mut all: Vec<&FabricEdge> = Vec::new();
        let mut i: usize = 0;
        while i < self.edges.len()
            invariant
                i <= self.edges@.len(),
                all@.map_values(|e: &FabricEdge| *e) == self.edges@.take(i as int),
            decreases self.edges@.len() - i,
        {
            let ghost prev = all@;
            all.push(&self.edges[i]);
            assert(all@.map_values(|e: &FabricEdge| *e) =~= prev.map_values(|e: &FabricEdge| *e).push(
                self.edges@[i as int],
            ));
            assert(self.edges@.take(i + 1) =~= self.edges@.take(i as int).push(self.edges@[i as int]));
            i = i + 1;
        }
        assert(self.edges@.take(self.edges@.len() as int) =~= self.edges@);
        (sum_bandwidth(&all), FABRIC_AGGREGATE_BW_MB_S)
    }
}

} // verus!
