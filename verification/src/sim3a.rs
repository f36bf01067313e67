//! Relational topology scaling: two declared topologies over the same loci,
//! the traversal count `C = |L| + |E|` of each, the ratio between them, and
//! its directed differences from three hardware timing observations.
use vstd::prelude::*;
use crate::fabric_sim::{region_indices, other_than, lemma_full_row_len};
use crate::text::{
    decimal,
    fixed_point,
    signed_fixed_point,
    pad_right,
    decimal_text,
    fixed_point_text,
    signed_fixed_point_text,
    append_padded_right,
    lemma_pow10_small,
};
use crate::seq_lemmas::{
    lemma_filter_push,
    lemma_filter_subset,
    lemma_flatten_item,
    lemma_flatten_uniform_len,
    lemma_flatten_contains,
    lemma_filter_no_duplicates,
    lemma_flatten_no_duplicates,
};

verus! {

broadcast use Seq::lemma_flatten_push;

/// Declared number of loci.
pub const N_LOCI: usize = 8;

/// Observed fully coupled / independent elapsed-time ratio at the 4 MB scale,
/// in thousandths (8.010).
pub const HW_RATIO_S1_MILLI: u64 = 8_010;

/// Observed ratio at the 32 MB scale, in thousandths (7.945).
pub const HW_RATIO_S2_MILLI: u64 = 7_945;

/// Observed ratio at the 128 MB scale, in thousandths (8.023).
pub const HW_RATIO_S3_MILLI: u64 = 8_023;

/// Declared topology class.
#[derive(Debug, Clone, Copy, PartialEq, Eq, Structural)]
pub enum TopologyClass {
    /// No inter-locus edges: each locus requires only its own state.
    Independent,
    /// One directed edge from each locus to each other locus.
    FullyCoupled,
}

/// A declared directed edge between two loci.
#[derive(Debug, Clone)]
pub struct DeclaredEdge {
    /// Source locus (provider of the relation).
    pub from: usize,
    /// Destination locus (consumer of the relation).
    pub to: usize,
}

/// A declared relational structure: loci and the edges among them.
pub struct DeclaredTopology {
    /// Topology class.
    pub class: TopologyClass,
    /// Number of loci.
    pub n_loci: usize,
    /// Declared edges.
    pub edges: Vec<DeclaredEdge>,
}

/// The edge from locus `i` to locus `j`.
pub open spec fn pair_edge(i: int) -> spec_fn(int) -> DeclaredEdge {
    |j: int| DeclaredEdge { from: i as usize, to: j as usize }
}

/// Edges from locus `i` to every other locus among `n`, in order.
pub open spec fn pair_row(n: usize, i: int) -> Seq<DeclaredEdge> {
    region_indices(n).filter(other_than(i)).map_values(pair_edge(i))
}

/// Rows of all loci among `n`.
pub open spec fn pair_rows(n: usize) -> Seq<Seq<DeclaredEdge>> {
    Seq::new(n as nat, |i: int| pair_row(n, i))
}

/// Every ordered pair of distinct loci among `n`, by source, then target.
pub open spec fn all_pairs(n: usize) -> Seq<DeclaredEdge> {
    pair_rows(n).flatten()
}

/// Edges declared by a topology class over `n` loci.
pub open spec fn declared_edges(class: TopologyClass, n: usize) -> Seq<DeclaredEdge> {
    match class {
        TopologyClass::Independent => Seq::empty(),
        TopologyClass::FullyCoupled => all_pairs(n),
    }
}


/// Declares a topology over `N_LOCI` loci: no edges when independent; an
/// edge for every ordered pair of distinct loci when fully coupled.
pub fn declare_topology(class: TopologyClass) -> (t: DeclaredTopology)
    ensures
        t.class == class,
        t.n_loci == N_LOCI,
        t.edges@ == declared_edges(class, N_LOCI),
{
    let n = N_LOCI;
    let mut edges: Vec<DeclaredEdge> = Vec::new();
    match class {
        TopologyClass::Independent => {},
        TopologyClass::FullyCoupled => {
            let ghost rows = pair_rows(n);
            for i in 0..n
                invariant
                    n == N_LOCI,
                    rows == pair_rows(n),
                    edges@ == rows.take(i as int).flatten(),
            {
                let ghost base = edges@;
                let ghost keep = other_than(i as int);
                let ghost to_edge = pair_edge(i as int);
                for j in 0..n
                    invariant
                        keep == other_than(i as int),
                        to_edge == pair_edge(i as int),
                        edges@ == base + region_indices(j).filter(keep).map_values(to_edge),
                {
                    proof {
                        let s = region_indices(j);
                        assert(region_indices((j + 1) as usize) =~= s.push(j as int));
                        lemma_filter_push(s, j as int, keep);
                    }
                    if i != j {
                        edges.push(DeclaredEdge { from: i, to: j });
                        assert(region_indices((j + 1) as usize).filter(keep).map_values(to_edge)
                            =~= region_indices(j).filter(keep).map_values(to_edge).push(
                            to_edge(j as int),
                        ));
                    }
                }
                proof {
                    assert(rows.take(i + 1) =~= rows.take(i as int).push(rows[i as int]));
                }
            }
            proof {
                assert(rows.take(n as int) =~= rows);
            }
        },
    }
    DeclaredTopology { class, n_loci: n, edges }
}

/// Traversal count of a declared topology: `C = |L| + |E|`.
pub struct TraversalCount {
    /// Topology class.
    pub class: TopologyClass,
    /// `|L|`: one count per declared locus.
    pub locus_count: usize,
    /// `|E|`: one count per declared edge.
    pub edge_count: usize,
    /// `C = |L| + |E|`.
    pub total: usize,
}

/// Applies the counting projection `C = |L| + |E|` to a declared topology.
pub fn compute_traversal_count(topology: &DeclaredTopology) -> (c: TraversalCount)
    requires
        topology.n_loci + topology.edges@.len() <= usize::MAX,
    ensures
        c.class == topology.class,
        c.locus_count == topology.n_loci,
        c.edge_count == topology.edges@.len(),
        c.total == topology.n_loci + topology.edges@.len(),
{
    let locus_count = topology.n_loci;
    let edge_count = topology.edges.len();
    let total = locus_count + edge_count;
    TraversalCount { class: topology.class, locus_count, edge_count, total }
}


/// The fully coupled topology over `n` loci declares each ordered pair of
/// distinct loci exactly once, and nothing else: `n * (n - 1)` edges, no
/// self-loops, every pair present, no pair twice.
pub proof fn lemma_all_pairs(n: usize)
    ensures
        all_pairs(n).len() == n * (n - 1),
        forall|p: int|
            0 <= p < all_pairs(n).len() ==> {
                let e = #[trigger] all_pairs(n)[p];
                e.from < n && e.to < n && e.from != e.to
            },
        forall|i: usize, j: usize|
            i < n && j < n && i != j ==> #[trigger] all_pairs(n).contains(
                DeclaredEdge { from: i, to: j },
            ),
        all_pairs(n).no_duplicates(),
{
    let rows = pair_rows(n);
    assert forall|r: int| 0 <= r < rows.len() implies (#[trigger] rows[r]).len() == n - 1 by {
        lemma_full_row_len(n, r);
    }
    lemma_flatten_uniform_len(rows, n - 1);
    assert forall|p: int| 0 <= p < all_pairs(n).len() implies {
        let e = #[trigger] all_pairs(n)[p];
        e.from < n && e.to < n && e.from != e.to
    } by {
        lemma_flatten_item(rows, p);
        let (r, q) = choose|r: int, q: int|
            0 <= r < rows.len() && 0 <= q < rows[r].len() && #[trigger] rows[r][q]
                == rows.flatten()[p];
        let kept = region_indices(n).filter(other_than(r));
        region_indices(n).lemma_filter_pred(other_than(r), q);
        lemma_filter_subset(region_indices(n), other_than(r), q);
    }
    assert forall|i: usize, j: usize| i < n && j < n && i != j implies #[trigger] all_pairs(
        n,
    ).contains(DeclaredEdge { from: i, to: j }) by {
        let kept = region_indices(n).filter(other_than(i as int));
        assert(region_indices(n)[j as int] == j);
        region_indices(n).lemma_filter_contains(other_than(i as int), j as int);
        let q = choose|q: int| 0 <= q < kept.len() && kept[q] == j as int;
        assert(rows[i as int][q] == DeclaredEdge { from: i, to: j });
        lemma_flatten_contains(rows, i as int, q);
    }
    assert forall|r: int| 0 <= r < rows.len() implies (#[trigger] rows[r]).no_duplicates() by {
        let kept = region_indices(n).filter(other_than(r));
        lemma_filter_no_duplicates(region_indices(n), other_than(r));
        assert forall|a: int, b: int|
            0 <= a < rows[r].len() && 0 <= b < rows[r].len() && a != b implies rows[r][a]
            != rows[r][b] by {
            lemma_filter_subset(region_indices(n), other_than(r), a);
            lemma_filter_subset(region_indices(n), other_than(r), b);
            assert(kept[a] != kept[b]);
        }
    }
    assert forall|r1: int, r2: int, q1: int, q2: int|
        0 <= r1 < rows.len() && 0 <= r2 < rows.len() && r1 != r2 && 0 <= q1 < rows[r1].len()
            && 0 <= q2 < rows[r2].len() implies #[trigger] rows[r1][q1]
        != #[trigger] rows[r2][q2] by {
        assert(rows[r1][q1].from == r1 as usize && rows[r2][q2].from == r2 as usize);
    }
    lemma_flatten_no_duplicates(rows);
}

/// The traversal count of the fully coupled topology over `n` loci is `n`
/// times that of the independent topology: `n + n * (n - 1) == n * n`. The
/// structural reduction of the independent topology is the number of loci.
pub proof fn lemma_traversal_ratio_is_locus_count(n: usize)
    ensures
        n + declared_edges(TopologyClass::FullyCoupled, n).len() == n * (n + declared_edges(
            TopologyClass::Independent,
            n,
        ).len()),
{
    lemma_all_pairs(n);
    assert(n + n * (n - 1) == n * n) by (nonlinear_arith);
}


/// Directed difference between one hardware ratio and the derived ratio,
/// all in thousandths: `delta = hardware - derived`.
pub struct Delta {
    /// Label of the working-set scale.
    pub scale_label: &'static str,
    /// Observed hardware ratio, in thousandths.
    pub hw_ratio_milli: u64,
    /// Ratio derived from the declared topologies, in thousandths.
    pub sim_ratio_milli: u64,
    /// Hardware less derived ratio, in thousandths.
    pub delta_milli: i64,
}

/// Result of the scaling correspondence comparison.
pub struct Sim3AResult {
    /// Traversal count of the independent topology.
    pub independent_count: TraversalCount,
    /// Traversal count of the fully coupled topology.
    pub fully_coupled_count: TraversalCount,
    /// Derived ratio `C_FC / C_I`, in thousandths.
    pub derived_ratio_milli: u64,
    /// Directed differences against the three hardware observations.
    pub deltas: [Delta; 3],
}

fn delta(scale_label: &'static str, hw_ratio_milli: u64, sim_ratio_milli: u64) -> (d: Delta)
    requires
        hw_ratio_milli <= i64::MAX,
        sim_ratio_milli <= i64::MAX,
    ensures
        d.scale_label == scale_label,
        d.hw_ratio_milli == hw_ratio_milli,
        d.sim_ratio_milli == sim_ratio_milli,
        d.delta_milli == hw_ratio_milli - sim_ratio_milli,
{
    Delta {
        scale_label,
        hw_ratio_milli,
        sim_ratio_milli,
        delta_milli: hw_ratio_milli as i64 - sim_ratio_milli as i64,
    }
}

/// Declares both topologies over `N_LOCI` loci, counts their traversals,
/// derives the ratio `C_FC / C_I` (64 / 8 = 8.000) and reports its directed
/// differences from the three hardware observations (+0.010, -0.055, +0.023).
pub fn run_sim3a() -> (r: Sim3AResult)
    ensures
        r.independent_count.class == TopologyClass::Independent,
        r.independent_count.locus_count == N_LOCI,
        r.independent_count.edge_count == 0,
        r.independent_count.total == N_LOCI,
        r.fully_coupled_count.class == TopologyClass::FullyCoupled,
        r.fully_coupled_count.locus_count == N_LOCI,
        r.fully_coupled_count.edge_count == N_LOCI * (N_LOCI - 1),
        r.fully_coupled_count.total == N_LOCI * N_LOCI,
        r.derived_ratio_milli == 1000 * N_LOCI,
        r.deltas[0].scale_label == "S1 (4 MB)",
        r.deltas[1].scale_label == "S2 (32 MB)",
        r.deltas[2].scale_label == "S3 (128 MB)",
        r.deltas[0].hw_ratio_milli == HW_RATIO_S1_MILLI,
        r.deltas[1].hw_ratio_milli == HW_RATIO_S2_MILLI,
        r.deltas[2].hw_ratio_milli == HW_RATIO_S3_MILLI,
        forall|i: int| 0 <= i < 3 ==> (#[trigger] r.deltas[i]).sim_ratio_milli == r.derived_ratio_milli,
        forall|i: int|
            0 <= i < 3 ==> (#[trigger] r.deltas[i]).delta_milli == r.deltas[i].hw_ratio_milli
                - r.derived_ratio_milli,
{
    let ind_topology = declare_topology(TopologyClass::Independent);
    let fc_topology = declare_topology(TopologyClass::FullyCoupled);
    proof {
        lemma_all_pairs(N_LOCI);
        assert(ind_topology.edges@.len() == 0);
        assert(fc_topology.edges@.len() == N_LOCI * (N_LOCI - 1));
        assert forall|p: int| 0 <= p < fc_topology.edges@.len() implies (#[trigger] fc_topology.edges@[p]).from
            != fc_topology.edges@[p].to by {
            assert(fc_topology.edges@[p] == all_pairs(N_LOCI)[p]);
        }
    }
    let ind = compute_traversal_count(&ind_topology);
    let fc = compute_traversal_count(&fc_topology);
    let derived_ratio_milli = (fc.total as u64) * 1000 / (ind.total as u64);
    let deltas = [
        delta("S1 (4 MB)", HW_RATIO_S1_MILLI, derived_ratio_milli),
        delta("S2 (32 MB)", HW_RATIO_S2_MILLI, derived_ratio_milli),
        delta("S3 (128 MB)", HW_RATIO_S3_MILLI, derived_ratio_milli),
    ];
    Sim3AResult { independent_count: ind, fully_coupled_count: fc, derived_ratio_milli, deltas }
}


/// Report line of one directed difference: scale, hardware ratio to three
/// decimals, derived ratio to four, signed difference to four.
pub open spec fn delta_line(d: Delta) -> Seq<char> {
    "  "@ + pad_right(d.scale_label@, 14) + "  HW="@ + fixed_point(d.hw_ratio_milli as nat, 1000, 3)
        + "  Sim="@ + fixed_point(d.sim_ratio_milli as nat, 1000, 4) + "  Δ="@ + signed_fixed_point(
        d.delta_milli as int,
        1000,
        4,
        true,
    ) + "\n"@
}

/// Text of the scaling correspondence report.
pub open spec fn sim3a_report_text(r: Sim3AResult) -> Seq<char> {
    "OC-IF-SIM-3A — Relational Topology Scaling Correspondence\n"@
        + "Metatron Dynamics, Inc. Bounded over D. No claim beyond D.\n"@ + "\n"@
        + "── Declared Structure ───────────────────────────────────────────────\n"@
        + "N_LOCI = "@ + decimal(N_LOCI as nat) + "\n"@ + "Independent:  |L|="@ + decimal(
        r.independent_count.locus_count as nat,
    ) + " loci, |E|="@ + decimal(r.independent_count.edge_count as nat) + " edges → C_I  = "@
        + decimal(r.independent_count.total as nat) + "\n"@ + "FullyCoupled: |L|="@ + decimal(
        r.fully_coupled_count.locus_count as nat,
    ) + " loci, |E|="@ + decimal(r.fully_coupled_count.edge_count as nat) + " edges → C_FC = "@
        + decimal(r.fully_coupled_count.total as nat) + "\n"@ + "\n"@
        + "── Counting Projection C = |L| + |E| ────────────────────────────────\n"@
        + "Projection applied to declared relational structure.\n"@
        + "Kernel operators A→B→R establish the structure; C reads it.\n"@
        + "Derived ratio C_FC / C_I = "@ + decimal(r.fully_coupled_count.total as nat) + " / "@
        + decimal(r.independent_count.total as nat) + " = "@ + fixed_point(
        r.derived_ratio_milli as nat,
        1000,
        4,
    ) + "\n"@ + "Ratio derived from declared topology. Not assumed.\n"@ + "\n"@
        + "── Hardware Observations (declared through M) ───────────────────────\n"@
        + "Source: bench_dependency_classes.rs, 2026-09-03, Ryzen 5 7600X.\n"@
        + "Observable: FC elapsed time / Independent elapsed time.\n"@ + "  S1 (4 MB):   "@
        + fixed_point(HW_RATIO_S1_MILLI as nat, 1000, 3) + "\n"@ + "  S2 (32 MB):  "@
        + fixed_point(HW_RATIO_S2_MILLI as nat, 1000, 3) + "\n"@ + "  S3 (128 MB): "@
        + fixed_point(HW_RATIO_S3_MILLI as nat, 1000, 3) + "\n"@
        + "Hardware substrate cost changed 107× across S1→S3.\n"@
        + "Structural ratio remained stable: range 7.945–8.023.\n"@ + "\n"@
        + "── Correspondence: Directed Differences Δ = HW − Sim ────────────────\n"@
        + delta_line(r.deltas[0]) + delta_line(r.deltas[1]) + delta_line(r.deltas[2]) + "\n"@
        + "── Structural Reduction Statement ───────────────────────────────────\n"@
        + "Independent has 1/"@ + fixed_point(r.derived_ratio_milli as nat, 1000, 0)
        + " the declared traversal count of FullyCoupled\n"@ + "— an "@ + fixed_point(
        r.derived_ratio_milli as nat,
        1000,
        0,
    ) + "× structural reduction relative to the fully-coupled baseline.\n"@
        + "Ratio derived from declared topology and compared with hardware observations.\n"@
        + "\n"@ + "── Open Conditions ──────────────────────────────────────────────────\n"@
        + "OC-IF-SIM-3A OPEN: correspondence criterion not yet formally declared.\n"@
        + "OC-IF-SIM-3B OPEN: absolute hardware cost gradient correspondence.\n"@
        + "OC-IF-SIM-1  OPEN: DF PMC beat counts require Linux + AMDuProf.\n"@
        + "OC-IF-SIM-2  OPEN: O(n^2) complexity extension to transformer scale.\n"@
        + "Coupled class OPEN: requires declared edge basis through M.\n"@
}

fn append_delta_line(out: &mut String, d: &Delta)
    ensures
        final(out)@ == old(out)@ + delta_line(*d),
{
    proof {
        lemma_pow10_small();
        assert(-0x8000_0000_0000_0000 <= d.delta_milli);
    }
    out.append("  ");
    append_padded_right(out, d.scale_label, 14);
    out.append("  HW=");
    out.append(fixed_point_text(d.hw_ratio_milli as u128, 1000, 3).as_str());
    out.append("  Sim=");
    out.append(fixed_point_text(d.sim_ratio_milli as u128, 1000, 4).as_str());
    out.append("  Δ=");
    out.append(signed_fixed_point_text(d.delta_milli as i128, 1000, 4, true).as_str());
    out.append("\n");
}

/// Formats the scaling correspondence report: the declared structure, the
/// derived ratio, the hardware observations, the directed differences, the
/// structural reduction and the open conditions.
pub fn format_sim3a_report(r: &Sim3AResult) -> (out: String)
    ensures
        out@ == sim3a_report_text(*r),
{
    proof {
        lemma_pow10_small();
    }
    let mut out = String::from_str("OC-IF-SIM-3A — Relational Topology Scaling Correspondence\n");
    out.append("Metatron Dynamics, Inc. Bounded over D. No claim beyond D.\n");
    out.append("\n");
    out.append("── Declared Structure ───────────────────────────────────────────────\n");
    out.append("N_LOCI = ");
    out.append(decimal_text(N_LOCI as u128).as_str());
    out.append("\n");
    out.append("Independent:  |L|=");
    out.append(decimal_text(r.independent_count.locus_count as u128).as_str());
    out.append(" loci, |E|=");
    out.append(decimal_text(r.independent_count.edge_count as u128).as_str());
    out.append(" edges → C_I  = ");
    out.append(decimal_text(r.independent_count.total as u128).as_str());
    out.append("\n");
    out.append("FullyCoupled: |L|=");
    out.append(decimal_text(r.fully_coupled_count.locus_count as u128).as_str());
    out.append(" loci, |E|=");
    out.append(decimal_text(r.fully_coupled_count.edge_count as u128).as_str());
    out.append(" edges → C_FC = ");
    out.append(decimal_text(r.fully_coupled_count.total as u128).as_str());
    out.append("\n");
    out.append("\n");
    out.append("── Counting Projection C = |L| + |E| ────────────────────────────────\n");
    out.append("Projection applied to declared relational structure.\n");
    out.append("Kernel operators A→B→R establish the structure; C reads it.\n");
    out.append("Derived ratio C_FC / C_I = ");
    out.append(decimal_text(r.fully_coupled_count.total as u128).as_str());
    out.append(" / ");
    out.append(decimal_text(r.independent_count.total as u128).as_str());
    out.append(" = ");
    out.append(fixed_point_text(r.derived_ratio_milli as u128, 1000, 4).as_str());
    out.append("\n");
    out.append("Ratio derived from declared topology. Not assumed.\n");
    out.append("\n");
    out.append("── Hardware Observations (declared through M) ───────────────────────\n");
    out.append("Source: bench_dependency_classes.rs, 2026-09-03, Ryzen 5 7600X.\n");
    out.append("Observable: FC elapsed time / Independent elapsed time.\n");
    out.append("  S1 (4 MB):   ");
    out.append(fixed_point_text(HW_RATIO_S1_MILLI as u128, 1000, 3).as_str());
    out.append("\n");
    out.append("  S2 (32 MB):  ");
    out.append(fixed_point_text(HW_RATIO_S2_MILLI as u128, 1000, 3).as_str());
    out.append("\n");
    out.append("  S3 (128 MB): ");
    out.append(fixed_point_text(HW_RATIO_S3_MILLI as u128, 1000, 3).as_str());
    out.append("\n");
    out.append("Hardware substrate cost changed 107× across S1→S3.\n");
    out.append("Structural ratio remained stable: range 7.945–8.023.\n");
    out.append("\n");
    out.append("── Correspondence: Directed Differences Δ = HW − Sim ────────────────\n");
    append_delta_line(&mut out, &r.deltas[0]);
    append_delta_line(&mut out, &r.deltas[1]);
    append_delta_line(&mut out, &r.deltas[2]);
    out.append("\n");
    out.append("── Structural Reduction Statement ───────────────────────────────────\n");
    out.append("Independent has 1/");
    out.append(fixed_point_text(r.derived_ratio_milli as u128, 1000, 0).as_str());
    out.append(" the declared traversal count of FullyCoupled\n");
    out.append("— an ");
    out.append(fixed_point_text(r.derived_ratio_milli as u128, 1000, 0).as_str());
    out.append("× structural reduction relative to the fully-coupled baseline.\n");
    out.append("Ratio derived from declared topology and compared with hardware observations.\n");
    out.append("\n");
    out.append("── Open Conditions ──────────────────────────────────────────────────\n");
    out.append("OC-IF-SIM-3A OPEN: correspondence criterion not yet formally declared.\n");
    out.append("OC-IF-SIM-3B OPEN: absolute hardware cost gradient correspondence.\n");
    out.append("OC-IF-SIM-1  OPEN: DF PMC beat counts require Linux + AMDuProf.\n");
    out.append("OC-IF-SIM-2  OPEN: O(n^2) complexity extension to transformer scale.\n");
    out.append("Coupled class OPEN: requires declared edge basis through M.\n");
    out
}

} // verus!
