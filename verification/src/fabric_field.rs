//! Bandwidth field over the fabric loci and the A operator, the directed
//! bandwidth difference along each fabric edge, with the ranking of edges by
//! contrast and the identification of the bottleneck locus.
use vstd::prelude::*;
use crate::fabric_topology::{
    FabricEdge,
    FabricTopology,
    FABRIC_SWITCH,
    OAM_BASE,
    FABRIC_AGGREGATE_BW_MB_S,
    FABRIC_N_LOCI,
};

verus! {

/// Memory bandwidth of one accelerator module, in MB/s (8.0 TB/s).
pub const OAM_MEMORY_BW_MB_S: u64 = 8_000_000;

/// Declared bandwidth available at each fabric locus.
#[derive(Debug, Clone)]
pub struct FabricBandwidthField {
    /// Bandwidth at each locus, in MB/s, indexed by locus.
    pub bandwidth_mb_s: Vec<u64>,
}

/// Declared bandwidth at locus `i`: module memory bandwidth at the modules,
/// the fabric aggregate at the switch, nothing elsewhere.
pub open spec fn declared_field_value(i: int) -> u64 {
    if 0 <= i < 8 {
        OAM_MEMORY_BW_MB_S
    } else if i == FABRIC_SWITCH {
        FABRIC_AGGREGATE_BW_MB_S
    } else {
        0
    }
}

/// Value of the A operator on edge `e`: bandwidth at its source less
/// bandwidth at its target.
pub open spec fn a_value(field: Seq<u64>, e: FabricEdge) -> int {
    field[e.source as int] - field[e.target as int]
}

/// Both endpoints of every edge index into a field of `n` loci.
pub open spec fn endpoints_within(edges: Seq<FabricEdge>, n: int) -> bool {
    forall|k: int| 0 <= k < edges.len() ==> (#[trigger] edges[k]).source < n && edges[k].target < n
}

/// Absolute value.
pub open spec fn abs(x: int) -> int {
    if x < 0 {
        -x
    } else {
        x
    }
}

/// Upstream bandwidth pressure at `locus`: the sum of the positive A values of
/// the edges that end there.
pub open spec fn pressure(field: Seq<u64>, edges: Seq<FabricEdge>, locus: int) -> int
    decreases edges.len(),
{
    if edges.len() == 0 {
        0
    } else {
        let e = edges.last();
        let a = a_value(field, e);
        pressure(field, edges.drop_last(), locus) + if a > 0 && e.target == locus {
            a
        } else {
            0
        }
    }
}

/// Entry `i` of the contrast table: edge index, source, target and A value.
pub open spec fn contrast_entry(a: Seq<i128>, edges: Seq<FabricEdge>, i: int) -> (
    usize,
    usize,
    usize,
    i128,
) {
    (i as usize, edges[i].source, edges[i].target, a[i])
}

/// Order of the contrast table: larger absolute A first, then lower edge index.
pub open spec fn contrast_precedes(x: (usize, usize, usize, i128), y: (usize, usize, usize, i128)) -> bool {
    abs(x.3 as int) > abs(y.3 as int) || (abs(x.3 as int) == abs(y.3 as int) && x.0 < y.0)
}

/// Declares the bandwidth field over `n_loci` loci: module memory bandwidth at
/// loci 0 to 7, the fabric aggregate at the switch, zero at any further locus.
pub fn declare_bandwidth_field(n_loci: usize) -> (f: FabricBandwidthField)
    requires
        n_loci >= FABRIC_N_LOCI,
    ensures
        f.bandwidth_mb_s@.len() == n_loci,
        forall|i: int| 0 <= i < n_loci ==> #[trigger] f.bandwidth_mb_s@[i] == declared_field_value(i),
{
    let mut bandwidth_mb_s: Vec<u64> = Vec::new();
    for i in 0..n_loci
        invariant
            bandwidth_mb_s@.len() == i,
            forall|k: int| 0 <= k < i ==> bandwidth_mb_s@[k] == 0,
    {
        bandwidth_mb_s.push(0);
    }
    for i in 0..8
        invariant
            n_loci >= FABRIC_N_LOCI,
            bandwidth_mb_s@.len() == n_loci,
            forall|k: int| 0 <= k < i ==> bandwidth_mb_s@[k] == OAM_MEMORY_BW_MB_S,
            forall|k: int| i <= k < n_loci ==> bandwidth_mb_s@[k] == 0,
    {
        bandwidth_mb_s.set(OAM_BASE + i, OAM_MEMORY_BW_MB_S);
    }
    bandwidth_mb_s.set(FABRIC_SWITCH, FABRIC_AGGREGATE_BW_MB_S);
    FabricBandwidthField { bandwidth_mb_s }
}

/// The A operator over the fabric edges: for each edge, in order, the
/// bandwidth at its source less the bandwidth at its target.
pub fn operator_a_fabric(field: &FabricBandwidthField, topology: &FabricTopology) -> (a: Vec<
    i128,
>)
    requires
        endpoints_within(topology.edges@, field.bandwidth_mb_s@.len() as int),
    ensures
        a@.len() == topology.edges@.len(),
        forall|k: int|
            0 <= k < a@.len() ==> #[trigger] a@[k] == a_value(
                field.bandwidth_mb_s@,
                topology.edges@[k],
            ),
{
    let mut a: Vec<i128> = Vec::new();
    let n = topology.edges.len();
    for k in 0..n
        invariant
            n == topology.edges@.len(),
            endpoints_within(topology.edges@, field.bandwidth_mb_s@.len() as int),
            a@.len() == k,
            forall|j: int|
                0 <= j < k ==> #[trigger] a@[j] == a_value(
                    field.bandwidth_mb_s@,
                    topology.edges@[j],
                ),
    {
        let e = &topology.edges[k];
        assert(e.source < field.bandwidth_mb_s@.len() && e.target < field.bandwidth_mb_s@.len());
        let v = field.bandwidth_mb_s[e.source] as i128 - field.bandwidth_mb_s[e.target] as i128;
        a.push(v);
    }
    a
}

/// The A operator is antisymmetric across directions: an edge and its
/// reverse carry A values of equal magnitude and opposite sign.
pub proof fn lemma_a_antisymmetric(field: Seq<u64>, e: FabricEdge, reverse: FabricEdge)
    requires
        reverse.source == e.target,
        reverse.target == e.source,
    ensures
        a_value(field, e) + a_value(field, reverse) == 0,
{
}

fn magnitude(x: i128) -> (m: u128)
    ensures
        m == abs(x as int),
{
    if x < 0 {
        ((-(x + 1)) as u128) + 1
    } else {
        x as u128
    }
}

/// The contrast table: one entry per A value (edge index, source, target, A),
/// ordered by absolute A, largest first; entries of equal magnitude keep
/// their edge order.
pub fn fabric_contrast(a_output: &[i128], topology: &FabricTopology) -> (r: Vec<
    (usize, usize, usize, i128),
>)
    requires
        a_output@.len() <= topology.edges@.len(),
    ensures
        r@.len() == a_output@.len(),
        forall|j: int|
            0 <= j < r@.len() ==> {
                &&& (#[trigger] r@[j]).0 < a_output@.len()
                &&& r@[j] == contrast_entry(a_output@, topology.edges@, r@[j].0 as int)
            },
        forall|j1: int, j2: int|
            0 <= j1 < j2 < r@.len() ==> contrast_precedes(#[trigger] r@[j1], #[trigger] r@[j2]),
{
    let n = a_output.len();
    let mut r: Vec<(usize, usize, usize, i128)> = Vec::new();
    for i in 0..n
        invariant
            n == a_output@.len(),
            n <= topology.edges@.len(),
            r@.len() == i,
            forall|j: int|
                0 <= j < r@.len() ==> {
                    &&& (#[trigger] r@[j]).0 < i
                    &&& r@[j] == contrast_entry(a_output@, topology.edges@, r@[j].0 as int)
                },
            forall|j1: int, j2: int|
                0 <= j1 < j2 < r@.len() ==> contrast_precedes(#[trigger] r@[j1], #[trigger] r@[j2]),
    {
        let entry = (i, topology.edges[i].source, topology.edges[i].target, a_output[i]);
        let m = magnitude(a_output[i]);
        let mut pos: usize = 0;
        while pos < r.len() && magnitude(r[pos].3) >= m
            invariant
                pos <= r@.len(),
                m == abs(a_output@[i as int] as int),
                forall|j: int| 0 <= j < pos ==> abs((#[trigger] r@[j]).3 as int) >= m,
            decreases r@.len() - pos,
        {
            pos = pos + 1;
        }
        let ghost prev = r@;
        r.insert(pos, entry);
        proof {
            assert forall|j1: int, j2: int|
                0 <= j1 < j2 < r@.len() implies contrast_precedes(
                #[trigger] r@[j1],
                #[trigger] r@[j2],
            ) by {
                if j1 < pos && j2 == pos {
                    assert(r@[j1] == prev[j1]);
                } else if j1 == pos && j2 > pos {
                    assert(r@[j2] == prev[j2 - 1]);
                    if j2 - 1 > pos {
                        assert(contrast_precedes(prev[pos as int], prev[j2 - 1]));
                    }
                } else if j1 < pos && j2 > pos {
                    assert(r@[j1] == prev[j1] && r@[j2] == prev[j2 - 1]);
                } else if j1 > pos {
                    assert(r@[j1] == prev[j1 - 1] && r@[j2] == prev[j2 - 1]);
                } else {
                    assert(r@[j1] == prev[j1] && r@[j2] == prev[j2]);
                }
            }
            assert forall|j: int| 0 <= j < r@.len() implies {
                &&& (#[trigger] r@[j]).0 < i + 1
                &&& r@[j] == contrast_entry(a_output@, topology.edges@, r@[j].0 as int)
            } by {
                if j < pos {
                    assert(r@[j] == prev[j]);
                } else if j > pos {
                    assert(r@[j] == prev[j - 1]);
                }
            }
        }
    }
    r
}


/// Appending an edge raises the pressure at its target by the bandwidth its
/// source has beyond its target, when the source has more, and changes the
/// pressure nowhere else.
pub proof fn lemma_pressure_push(field: Seq<u64>, edges: Seq<FabricEdge>, e: FabricEdge, locus: int)
    ensures
        pressure(field, edges.push(e), locus) == pressure(field, edges, locus) + (if e.target
            == locus && field[e.source as int] > field[e.target as int] {
            field[e.source as int] - field[e.target as int]
        } else {
            0
        }),
{
    assert(edges.push(e).drop_last() =~= edges);
    assert(edges.push(e).last() == e);
}

/// Pressure never goes below zero.
pub proof fn lemma_pressure_nonnegative(field: Seq<u64>, edges: Seq<FabricEdge>, locus: int)
    ensures
        pressure(field, edges, locus) >= 0,
    decreases edges.len(),
{
    if edges.len() > 0 {
        lemma_pressure_nonnegative(field, edges.drop_last(), locus);
    }
}

/// Every edge that arrives at a locus from a source with more bandwidth
/// contributes its whole bandwidth difference: the pressure there is at
/// least that difference.
pub proof fn lemma_pressure_counts_each_edge(
    field: Seq<u64>,
    edges: Seq<FabricEdge>,
    locus: int,
    k: int,
)
    requires
        0 <= k < edges.len(),
        edges[k].target == locus,
        field[edges[k].source as int] > field[edges[k].target as int],
    ensures
        pressure(field, edges, locus) >= field[edges[k].source as int] - field[edges[k].target
            as int],
    decreases edges.len(),
{
    let init = edges.drop_last();
    if k == edges.len() - 1 {
        lemma_pressure_nonnegative(field, init, locus);
    } else {
        assert(init[k] == edges[k]);
        lemma_pressure_counts_each_edge(field, init, locus, k);
    }
}

/// A locus that no edge reaches from a source with more bandwidth is under
/// no pressure.
pub proof fn lemma_pressure_without_arrivals(field: Seq<u64>, edges: Seq<FabricEdge>, locus: int)
    requires
        forall|k: int|
            0 <= k < edges.len() && (#[trigger] edges[k]).target == locus ==> field[edges[k].source
                as int] <= field[edges[k].target as int],
    ensures
        pressure(field, edges, locus) == 0,
    decreases edges.len(),
{
    if edges.len() > 0 {
        let init = edges.drop_last();
        assert forall|k: int|
            0 <= k < init.len() && (#[trigger] init[k]).target == locus implies field[init[k].source
            as int] <= field[init[k].target as int] by {
            assert(init[k] == edges[k]);
        }
        lemma_pressure_without_arrivals(field, init, locus);
        assert(edges[edges.len() - 1] == edges.last());
    }
}

/// Pressure at a locus from `n` edges is at most `n` times the largest `u64`.
proof fn lemma_pressure_bound(field: Seq<u64>, edges: Seq<FabricEdge>, locus: int)
    requires
        endpoints_within(edges, field.len() as int),
    ensures
        0 <= pressure(field, edges, locus) <= edges.len() * (u64::MAX as int),
    decreases edges.len(),
{
    if edges.len() > 0 {
        let e = edges.last();
        assert(edges.drop_last().len() == edges.len() - 1);
        assert forall|k: int| 0 <= k < edges.drop_last().len() implies (
        #[trigger] edges.drop_last()[k]).source < field.len() && edges.drop_last()[k].target
            < field.len() by {
            assert(edges.drop_last()[k] == edges[k]);
        }
        lemma_pressure_bound(field, edges.drop_last(), locus);
        assert(edges[edges.len() - 1] == e);
    }
}

/// Every edge with positive A ends at a locus below `n`.
pub open spec fn positive_targets_within(field: Seq<u64>, edges: Seq<FabricEdge>, n: int) -> bool {
    forall|k: int| 0 <= k < edges.len() && a_value(field, #[trigger] edges[k]) > 0 ==> edges[k].target < n
}

/// Identifies the bottleneck locus: the locus with the largest upstream
/// pressure, the last such locus where several tie; the switch when the
/// topology declares no loci.
pub fn identify_bottleneck(field: &FabricBandwidthField, topology: &FabricTopology) -> (r: usize)
    requires
        endpoints_within(topology.edges@, field.bandwidth_mb_s@.len() as int),
        positive_targets_within(field.bandwidth_mb_s@, topology.edges@, topology.n_loci as int),
    ensures
        topology.n_loci == 0 ==> r == FABRIC_SWITCH,
        topology.n_loci > 0 ==> {
            &&& r < topology.n_loci
            &&& forall|l: int|
                0 <= l < topology.n_loci ==> pressure(field.bandwidth_mb_s@, topology.edges@, l)
                    <= pressure(field.bandwidth_mb_s@, topology.edges@, r as int)
            &&& forall|l: int|
                r < l < topology.n_loci ==> pressure(field.bandwidth_mb_s@, topology.edges@, l)
                    < pressure(field.bandwidth_mb_s@, topology.edges@, r as int)
            &&& forall|k: int|
                0 <= k < topology.edges@.len() && field.bandwidth_mb_s@[(
                #[trigger] topology.edges@[k]).source as int]
                    > field.bandwidth_mb_s@[topology.edges@[k].target as int] ==> field.bandwidth_mb_s@[
                topology.edges@[k].source as int] - field.bandwidth_mb_s@[topology.edges@[k].target as int]
                    <= pressure(field.bandwidth_mb_s@, topology.edges@, r as int)
        },
{
    let a = operator_a_fabric(field, topology);
    let ghost f = field.bandwidth_mb_s@;
    let ghost edges = topology.edges@;
    let n_loci = topology.n_loci;
    let mut load: Vec<u128> = Vec::new();
    for l in 0..n_loci
        invariant
            load@.len() == l,
            forall|j: int| 0 <= j < l ==> load@[j] == 0,
    {
        load.push(0);
    }
    let n_edges = topology.edges.len();
    for idx in 0..n_edges
        invariant
            n_edges == edges.len(),
            f == field.bandwidth_mb_s@,
            edges == topology.edges@,
            n_loci == topology.n_loci,
            endpoints_within(edges, f.len() as int),
            positive_targets_within(f, edges, n_loci as int),
            a@.len() == edges.len(),
            forall|k: int| 0 <= k < a@.len() ==> #[trigger] a@[k] == a_value(f, edges[k]),
            load@.len() == n_loci,
            forall|l: int| 0 <= l < n_loci ==> #[trigger] load@[l] == pressure(f, edges.take(idx as int), l),
    {
        proof {
            assert(edges.take(idx + 1).drop_last() =~= edges.take(idx as int));
            assert(edges.take(idx + 1).last() == edges[idx as int]);
        }
        if a[idx] > 0 {
            let t = topology.edges[idx].target;
            proof {
                assert(a_value(f, edges[idx as int]) > 0);
                assert(endpoints_within(edges.take(idx as int), f.len() as int));
                lemma_pressure_bound(f, edges.take(idx as int), t as int);
                assert(a@[idx as int] <= u64::MAX);
                assert(idx * (u64::MAX as int) + (u64::MAX as int) < u128::MAX) by (nonlinear_arith)
                    requires
                        idx < usize::MAX,
                        usize::MAX <= u64::MAX,
                ;
            }
            let v = load[t] + a[idx] as u128;
            load.set(t, v);
        }
        proof {
            assert forall|l: int| 0 <= l < n_loci implies #[trigger] load@[l] == pressure(
                f,
                edges.take(idx + 1),
                l,
            ) by {}
        }
    }
    assert(edges.take(n_edges as int) =~= edges);
    if n_loci == 0 {
        return FABRIC_SWITCH;
    }
    let mut best: usize = 0;
    for l in 1..n_loci
        invariant
            best < l,
            l <= n_loci,
            n_loci == topology.n_loci,
            load@.len() == n_loci,
            forall|j: int|
                0 <= j < n_loci ==> #[trigger] load@[j] == pressure(
                    field.bandwidth_mb_s@,
                    topology.edges@,
                    j,
                ),
            forall|j: int| 0 <= j < l ==> load@[j] <= load@[best as int],
            forall|j: int| best < j < l ==> load@[j] < load@[best as int],
    {
        if load[l] >= load[best] {
            best = l;
        }
    }
    proof {
        let ghost pf = field.bandwidth_mb_s@;
        let ghost pe = topology.edges@;
        assert forall|l: int| 0 <= l < n_loci implies pressure(pf, pe, l) <= pressure(
            pf,
            pe,
            best as int,
        ) by {
            assert(load@[l] == pressure(pf, pe, l));
            assert(load@[best as int] == pressure(pf, pe, best as int));
        }
        assert forall|l: int| best < l < n_loci implies pressure(pf, pe, l) < pressure(
            pf,
            pe,
            best as int,
        ) by {
            assert(load@[l] == pressure(pf, pe, l));
            assert(load@[best as int] == pressure(pf, pe, best as int));
        }
        assert forall|k: int|
            0 <= k < pe.len() && pf[(#[trigger] pe[k]).source as int] > pf[pe[k].target as int] implies pf[
        pe[k].source as int] - pf[pe[k].target as int] <= pressure(pf, pe, best as int) by {
            let l = pe[k].target as int;
            assert(a_value(pf, pe[k]) > 0);
            assert(l < n_loci);
            lemma_pressure_counts_each_edge(pf, pe, l, k);
            assert(pressure(pf, pe, l) <= pressure(pf, pe, best as int));
        }
    }
    best
}

} // verus!
