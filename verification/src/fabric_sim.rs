//! Fabric traffic model under declared dependency structure: three workload
//! dependency classes, their declared dependency graphs, and the read beats
//! (64-byte transfers) each class is predicted to move across the fabric,
//! beside the baseline of a system that declares no structure at all.
use vstd::prelude::*;
use crate::fabric_topology::{declare_fabric_topology, ring_admissible, FabricTopology};
use crate::binary_float::{binary64_quotient, binary_tenths, binary64_quotient_text};
use crate::text::{
    decimal,
    pad_left,
    pad_right,
    repeated,
    decimal_text,
    append_padded_left,
    append_padded_right,
    append_repeated,
};
use crate::seq_lemmas::{
    lemma_filter_push,
    lemma_filter_subset,
    lemma_flatten_item,
    lemma_flatten_uniform_len,
};

verus! {

broadcast use Seq::lemma_flatten_push;

/// Declared dependency structure between the data regions of a workload.
#[derive(Debug, Clone, Copy, PartialEq, Eq, Structural)]
pub enum WorkloadClass {
    /// No region depends on another region's data.
    Independent,
    /// Each region depends on the next few regions (wrapping around).
    WeaklyCoupled,
    /// Each region depends on every other region.
    FullyCoupled,
}

/// Declared workload parameters.
pub struct WorkloadParams {
    /// Number of declared data regions.
    pub n_regions: usize,
    /// Working set of one region, in bytes.
    pub working_set_bytes_per_region: u64,
    /// Data moved across one dependency edge, in bytes (one cache line).
    pub bytes_per_dependency_edge: u64,
    /// How many following regions each region depends on when weakly coupled.
    pub n_weak_deps_per_region: usize,
}

impl WorkloadParams {
    /// Eight regions of 512,000 bytes (4 MB in all, cache-resident at level 2).
    pub fn default_l2() -> (p: Self)
        ensures
            p.n_regions == 8,
            p.working_set_bytes_per_region == 512_000,
            p.bytes_per_dependency_edge == 64,
            p.n_weak_deps_per_region == 2,
    {
        WorkloadParams {
            n_regions: 8,
            working_set_bytes_per_region: 512_000,
            bytes_per_dependency_edge: 64,
            n_weak_deps_per_region: 2,
        }
    }

    /// Eight regions of 4,000,000 bytes (32 MB in all, cache-resident at level 3).
    pub fn default_l3() -> (p: Self)
        ensures
            p.n_regions == 8,
            p.working_set_bytes_per_region == 4_000_000,
            p.bytes_per_dependency_edge == 64,
            p.n_weak_deps_per_region == 2,
    {
        WorkloadParams {
            n_regions: 8,
            working_set_bytes_per_region: 4_000_000,
            bytes_per_dependency_edge: 64,
            n_weak_deps_per_region: 2,
        }
    }

    /// Eight regions of 16,000,000 bytes (128 MB in all, memory-resident).
    pub fn default_dram() -> (p: Self)
        ensures
            p.n_regions == 8,
            p.working_set_bytes_per_region == 16_000_000,
            p.bytes_per_dependency_edge == 64,
            p.n_weak_deps_per_region == 2,
    {
        WorkloadParams {
            n_regions: 8,
            working_set_bytes_per_region: 16_000_000,
            bytes_per_dependency_edge: 64,
            n_weak_deps_per_region: 2,
        }
    }
}

/// A declared data dependency: `dependent` needs `bytes` of `source`'s data.
#[derive(Debug, Clone)]
pub struct DependencyEdge {
    /// Region that declares the dependency (consumer).
    pub dependent: usize,
    /// Region whose data is required (provider).
    pub source: usize,
    /// Bytes moved across this dependency.
    pub bytes: u64,
}

/// The dependency of region `i` on region `j`, carrying `bytes` bytes.
pub open spec fn dep_edge(i: int, j: int, bytes: u64) -> DependencyEdge {
    DependencyEdge { dependent: i as usize, source: j as usize, bytes }
}

/// Region indices `0` to `n - 1`.
pub open spec fn region_indices(n: usize) -> Seq<int> {
    Seq::new(n as nat, |j: int| j)
}

/// Offsets `1` to `k`.
pub open spec fn offsets(k: usize) -> Seq<int> {
    Seq::new(k as nat, |k: int| k + 1)
}

/// Weakly coupled dependencies of region `i`: on region `(i + k) mod n` for
/// each `k` from 1 to `k_max` in turn, wherever that region is another one.
pub open spec fn weak_row(n: usize, k_max: usize, bytes: u64, i: int) -> Seq<DependencyEdge> {
    offsets(k_max).filter(lands_elsewhere(n, i)).map_values(weak_edge(n, i, bytes))
}

/// Whether offset `k` from region `i` lands on another region.
pub open spec fn lands_elsewhere(n: usize, i: int) -> spec_fn(int) -> bool {
    |k: int| (i + k) % (n as int) != i
}

/// The dependency of region `i` on the region `k` places after it.
pub open spec fn weak_edge(n: usize, i: int, bytes: u64) -> spec_fn(int) -> DependencyEdge {
    |k: int| dep_edge(i, (i + k) % (n as int), bytes)
}

/// Whether region `j` is another region than `i`.
pub open spec fn other_than(i: int) -> spec_fn(int) -> bool {
    |j: int| j != i
}

/// The dependency of region `i` on region `j`.
pub open spec fn edge_from(i: int, bytes: u64) -> spec_fn(int) -> DependencyEdge {
    |j: int| dep_edge(i, j, bytes)
}

/// Fully coupled dependencies of region `i`: on every other region in order.
pub open spec fn full_row(n: usize, bytes: u64, i: int) -> Seq<DependencyEdge> {
    region_indices(n).filter(other_than(i)).map_values(edge_from(i, bytes))
}

/// The declared dependency graph of a workload class: no edges when
/// independent; otherwise the rows of regions 0 to n - 1, in order.
pub open spec fn dependency_graph(class: WorkloadClass, params: WorkloadParams) -> Seq<
    DependencyEdge,
> {
    let n = params.n_regions;
    let b = params.bytes_per_dependency_edge;
    match class {
        WorkloadClass::Independent => Seq::empty(),
        WorkloadClass::WeaklyCoupled => weak_rows(params).flatten(),
        WorkloadClass::FullyCoupled => full_rows(params).flatten(),
    }
}

/// The weakly coupled rows of regions `0` to `n - 1`.
pub open spec fn weak_rows(params: WorkloadParams) -> Seq<Seq<DependencyEdge>> {
    Seq::new(
        params.n_regions as nat,
        |i: int|
            weak_row(
                params.n_regions,
                params.n_weak_deps_per_region,
                params.bytes_per_dependency_edge,
                i,
            ),
    )
}

/// The fully coupled rows of regions `0` to `n - 1`.
pub open spec fn full_rows(params: WorkloadParams) -> Seq<Seq<DependencyEdge>> {
    Seq::new(
        params.n_regions as nat,
        |i: int| full_row(params.n_regions, params.bytes_per_dependency_edge, i),
    )
}


/// Builds the declared dependency graph of `class`: for the weakly coupled
/// class, region `i` depends on regions `i + 1` to `i + k` (wrapping around,
/// skipping itself); for the fully coupled class, on every other region.
pub fn declare_dependency_graph(class: WorkloadClass, params: &WorkloadParams) -> (r: Vec<
    DependencyEdge,
>)
    requires
        class == WorkloadClass::WeaklyCoupled && params.n_regions > 0 ==> params.n_regions - 1
            + params.n_weak_deps_per_region <= usize::MAX,
    ensures
        r@ == dependency_graph(class, *params),
{
    let mut edges: Vec<DependencyEdge> = Vec::new();
    let n = params.n_regions;
    let b = params.bytes_per_dependency_edge;
    let k_max = params.n_weak_deps_per_region;
    match class {
        WorkloadClass::Independent => {},
        WorkloadClass::WeaklyCoupled => {
            let ghost rows = weak_rows(*params);
            for i in 0..n
                invariant
                    n == params.n_regions,
                    b == params.bytes_per_dependency_edge,
                    k_max == params.n_weak_deps_per_region,
                    n > 0 ==> n - 1 + k_max <= usize::MAX,
                    rows == weak_rows(*params),
                    edges@ == rows.take(i as int).flatten(),
            {
                let ghost base = edges@;
                let ghost keep = lands_elsewhere(n, i as int);
                let ghost to_edge = weak_edge(n, i as int, b);
                let mut k: usize = 0;
                while k < k_max
                    invariant
                        k <= k_max,
                        i < n,
                        n - 1 + k_max <= usize::MAX,
                        keep == lands_elsewhere(n, i as int),
                        to_edge == weak_edge(n, i as int, b),
                        edges@ == base + offsets(k).filter(
                            keep,
                        ).map_values(to_edge),
                    decreases k_max - k,
                {
                    let step = k + 1;
                    let source = (i + step) % n;
                    proof {
                        let s = offsets(k);
                        assert(offsets(step) =~= s.push(step as int));
                        lemma_filter_push(s, step as int, keep);
                    }
                    if source != i {
                        edges.push(DependencyEdge { dependent: i, source, bytes: b });
                        assert(offsets(step).filter(keep).map_values(
                            to_edge,
                        ) =~= offsets(k).filter(keep).map_values(
                            to_edge,
                        ).push(to_edge(step as int)));
                    }
                    k = step;
                }
                proof {
                    assert(rows.take(i + 1) =~= rows.take(i as int).push(rows[i as int]));
                    assert(offsets(k_max).filter(keep).map_values(to_edge)
                        =~= weak_row(n, k_max, b, i as int));
                }
            }
            proof {
                assert(rows.take(n as int) =~= rows);
            }
        },
        WorkloadClass::FullyCoupled => {
            let ghost rows = full_rows(*params);
            for i in 0..n
                invariant
                    n == params.n_regions,
                    b == params.bytes_per_dependency_edge,
                    rows == full_rows(*params),
                    edges@ == rows.take(i as int).flatten(),
            {
                let ghost base = edges@;
                let ghost keep = other_than(i as int);
                let ghost to_edge = edge_from(i as int, b);
                for j in 0..n
                    invariant
                        keep == other_than(i as int),
                        to_edge == edge_from(i as int, b),
                        edges@ == base + region_indices(j).filter(keep).map_values(
                            to_edge,
                        ),
                {
                    proof {
                        let s = region_indices(j);
                        assert(region_indices((j + 1) as usize) =~= s.push(j as int));
                        lemma_filter_push(s, j as int, keep);
                    }
                    if i != j {
                        edges.push(DependencyEdge { dependent: i, source: j, bytes: b });
                        assert(region_indices((j + 1) as usize).filter(keep).map_values(to_edge)
                            =~= region_indices(j).filter(keep).map_values(
                            to_edge,
                        ).push(to_edge(j as int)));
                    }
                }
                proof {
                    assert(rows.take(i + 1) =~= rows.take(i as int).push(rows[i as int]));

                }
            }
            proof {
                assert(rows.take(n as int) =~= rows);
            }
        },
    }
    edges
}





/// For `i` a region index, offset `k` lands back on region `i` exactly when
/// `k` is a multiple of `n`.
proof fn lemma_offset_lands_elsewhere(n: int, i: int, k: int)
    requires
        0 <= i < n,
        0 <= k,
    ensures
        ((i + k) % n != i) == (k % n != 0),
{
    let r = k % n;
    vstd::arithmetic::div_mod::lemma_add_mod_noop_right(i, k, n);
    assert(0 <= r < n);
    if r == 0 {
        vstd::arithmetic::div_mod::lemma_small_mod(i as nat, n as nat);
    } else if i + r < n {
        vstd::arithmetic::div_mod::lemma_small_mod((i + r) as nat, n as nat);
    } else {
        vstd::arithmetic::div_mod::lemma_mod_add_multiples_vanish(i + r - n, n);
        vstd::arithmetic::div_mod::lemma_small_mod((i + r - n) as nat, n as nat);
    }
}

/// Offsets `1` to `k` of which `n` divides none number `k - k / n`.
proof fn lemma_weak_row_len(n: usize, k: usize, i: int)
    requires
        0 <= i < n,
    ensures
        offsets(k).filter(lands_elsewhere(n, i)).len() == k as int - (k as int) / (n as int),
    decreases k,
{
    if k > 0 {
        let k0 = (k - 1) as usize;
        lemma_weak_row_len(n, k0, i);
        assert(offsets(k) =~= offsets(k0).push(k as int));
        lemma_filter_push(offsets(k0), k as int, lands_elsewhere(n, i));
        lemma_offset_lands_elsewhere(n as int, i, k as int);
        let q = (k0 as int) / (n as int);
        let r = (k0 as int) % (n as int);
        vstd::arithmetic::div_mod::lemma_fundamental_div_mod(k0 as int, n as int);
        if r + 1 < n {
            vstd::arithmetic::div_mod::lemma_fundamental_div_mod_converse(
                k as int,
                n as int,
                q,
                r + 1,
            );
        } else {
            assert(k as int == (q + 1) * n) by (nonlinear_arith)
                requires
                    k0 == n * q + r,
                    r + 1 == n,
                    k == k0 + 1,
            ;
            vstd::arithmetic::div_mod::lemma_fundamental_div_mod_converse(
                k as int,
                n as int,
                q + 1,
                0,
            );
        }
    }
}

/// Region indices `0` to `m - 1` other than `i` number `m - 1` when `i` is
/// among them and `m` otherwise.
pub proof fn lemma_full_row_len(m: usize, i: int)
    requires
        0 <= i,
    ensures
        region_indices(m).filter(other_than(i)).len() == (if i < m {
            m - 1
        } else {
            m as int
        }),
    decreases m,
{
    if m > 0 {
        let m0 = (m - 1) as usize;
        lemma_full_row_len(m0, i);
        assert(region_indices(m) =~= region_indices(m0).push(m0 as int));
        lemma_filter_push(region_indices(m0), m0 as int, other_than(i));
    }
}

/// Shape of the declared dependency graphs. Every edge joins two distinct
/// regions and carries the declared bytes per edge. The independent class has
/// no edges, the fully coupled class `n * (n - 1)`, and the weakly coupled
/// class `n * (k - k / n)` for `k` declared dependencies per region (`n * k`
/// when `k < n`).
pub proof fn lemma_dependency_graph_shape(class: WorkloadClass, params: WorkloadParams)
    ensures
        forall|p: int|
            0 <= p < dependency_graph(class, params).len() ==> {
                let e = #[trigger] dependency_graph(class, params)[p];
                &&& e.dependent < params.n_regions
                &&& e.source < params.n_regions
                &&& e.dependent != e.source
                &&& e.bytes == params.bytes_per_dependency_edge
            },
        class == WorkloadClass::Independent ==> dependency_graph(class, params).len() == 0,
        class == WorkloadClass::FullyCoupled ==> dependency_graph(class, params).len()
            == params.n_regions * (params.n_regions - 1),
        class == WorkloadClass::WeaklyCoupled ==> dependency_graph(class, params).len()
            == params.n_regions * (params.n_weak_deps_per_region as int - (
            params.n_weak_deps_per_region as int) / (params.n_regions as int)),
{
    let n = params.n_regions;
    let k = params.n_weak_deps_per_region;
    let b = params.bytes_per_dependency_edge;
    match class {
        WorkloadClass::Independent => {},
        WorkloadClass::WeaklyCoupled => {
            let rows = weak_rows(params);
            assert forall|r: int| 0 <= r < rows.len() implies (#[trigger] rows[r]).len() == k as int
                - (k as int) / (n as int) by {
                lemma_weak_row_len(n, k, r);
            }
            lemma_flatten_uniform_len(rows, k as int - (k as int) / (n as int));
            assert forall|p: int| 0 <= p < rows.flatten().len() implies {
                let e = #[trigger] rows.flatten()[p];
                &&& e.dependent < n
                &&& e.source < n
                &&& e.dependent != e.source
                &&& e.bytes == b
            } by {
                lemma_flatten_item(rows, p);
                let (r, q) = choose|r: int, q: int|
                    0 <= r < rows.len() && 0 <= q < rows[r].len() && #[trigger] rows[r][q]
                        == rows.flatten()[p];
                let kept = offsets(k).filter(lands_elsewhere(n, r));
                assert(rows[r] == kept.map_values(weak_edge(n, r, b)));
                offsets(k).lemma_filter_pred(lands_elsewhere(n, r), q);
                lemma_filter_subset(offsets(k), lands_elsewhere(n, r), q);
                let off = kept[q];
                assert(0 <= (r + off) % (n as int) < n);
            }
        },
        WorkloadClass::FullyCoupled => {
            let rows = full_rows(params);
            assert forall|r: int| 0 <= r < rows.len() implies (#[trigger] rows[r]).len() == n
                - 1 by {
                lemma_full_row_len(n, r);
            }
            lemma_flatten_uniform_len(rows, n - 1);
            assert forall|p: int| 0 <= p < rows.flatten().len() implies {
                let e = #[trigger] rows.flatten()[p];
                &&& e.dependent < n
                &&& e.source < n
                &&& e.dependent != e.source
                &&& e.bytes == b
            } by {
                lemma_flatten_item(rows, p);
                let (r, q) = choose|r: int, q: int|
                    0 <= r < rows.len() && 0 <= q < rows[r].len() && #[trigger] rows[r][q]
                        == rows.flatten()[p];
                let kept = region_indices(n).filter(other_than(r));
                assert(rows[r] == kept.map_values(edge_from(r, b)));
                region_indices(n).lemma_filter_pred(other_than(r), q);
                lemma_filter_subset(region_indices(n), other_than(r), q);
            }
        },
    }
}


/// Read beats needed to move `bytes` bytes, 64 bytes per beat, rounded up.
pub open spec fn ceil_beats(bytes: int) -> int {
    (bytes + 63) / 64
}

/// Total bytes moved across a sequence of dependency edges.
pub open spec fn dep_bytes_sum(edges: Seq<DependencyEdge>) -> int
    decreases edges.len(),
{
    if edges.len() == 0 {
        0
    } else {
        dep_bytes_sum(edges.drop_last()) + edges.last().bytes
    }
}

/// Read beats of every region reading its own working set once: each
/// region's working set rounded up to whole beats, times the regions.
pub open spec fn working_set_beats(params: WorkloadParams) -> int {
    params.n_regions * ceil_beats(params.working_set_bytes_per_region as int)
}

/// Read beats of the data moved across the declared dependencies.
pub open spec fn dependency_beats(class: WorkloadClass, params: WorkloadParams) -> int {
    ceil_beats(dep_bytes_sum(dependency_graph(class, params)))
}

/// Read beats predicted under the declared structure.
pub open spec fn declared_beats(class: WorkloadClass, params: WorkloadParams) -> int {
    working_set_beats(params) + dependency_beats(class, params)
}

/// Read beats of a system without declared structure: every region fetches
/// every region's working set, `n * n` working-set reads in all.
pub open spec fn baseline_beats(params: WorkloadParams) -> int {
    params.n_regions * params.n_regions * ceil_beats(params.working_set_bytes_per_region as int)
}

/// Whether a workload class moves data through the lower-bandwidth fabric
/// locus: never when independent, always when fully coupled, and when weakly
/// coupled exactly when it declares some dependency.
pub open spec fn activates_fabric(class: WorkloadClass, params: WorkloadParams) -> bool {
    match class {
        WorkloadClass::Independent => false,
        WorkloadClass::WeaklyCoupled => dependency_graph(class, params).len() > 0,
        WorkloadClass::FullyCoupled => true,
    }
}

/// The simulation of `class` under `params` stays within the integer range
/// of its computation: every byte and beat count fits in a `u64`, and the
/// weakly coupled offsets fit in a `usize`.
pub open spec fn simulation_fits(class: WorkloadClass, params: WorkloadParams) -> bool {
    let n = params.n_regions as int;
    let ws = params.working_set_bytes_per_region as int;
    let dep = dependency_graph(class, params).len() * params.bytes_per_dependency_edge;
    &&& class == WorkloadClass::WeaklyCoupled && n > 0 ==> n - 1 + params.n_weak_deps_per_region
        <= usize::MAX
    &&& dep + 63 <= u64::MAX
    &&& n * ceil_beats(ws) + ceil_beats(dep) <= u64::MAX
    &&& ws + 63 <= u64::MAX
    &&& n * n <= u64::MAX
    &&& n * n * ceil_beats(ws) <= u64::MAX
}

/// Edges that all carry `b` bytes move `len * b` bytes.
proof fn lemma_dep_bytes_uniform(edges: Seq<DependencyEdge>, b: u64)
    requires
        forall|p: int| 0 <= p < edges.len() ==> (#[trigger] edges[p]).bytes == b,
    ensures
        dep_bytes_sum(edges) == edges.len() * b,
    decreases edges.len(),
{
    if edges.len() > 0 {
        let init = edges.drop_last();
        assert forall|p: int| 0 <= p < init.len() implies (#[trigger] init[p]).bytes == b by {
            assert(init[p] == edges[p]);
        }
        lemma_dep_bytes_uniform(init, b);
        assert(edges.len() * b == init.len() * b + b) by (nonlinear_arith)
            requires
                edges.len() == init.len() + 1,
        ;
    }
}

/// The declared graph moves its edge count times the bytes per edge.
pub proof fn lemma_dependency_bytes(class: WorkloadClass, params: WorkloadParams)
    ensures
        dep_bytes_sum(dependency_graph(class, params)) == dependency_graph(class, params).len()
            * params.bytes_per_dependency_edge,
{
    lemma_dependency_graph_shape(class, params);
    lemma_dep_bytes_uniform(dependency_graph(class, params), params.bytes_per_dependency_edge);
}

/// An exact ratio of two beat counts.
#[derive(Debug, Clone, Copy, PartialEq, Eq, Structural)]
pub struct BeatRatio {
    /// Numerator.
    pub numerator: u64,
    /// Denominator.
    pub denominator: u64,
}

/// Predicted fabric read beats of one workload class at one working-set scale.
#[derive(Debug, Clone)]
pub struct PredictedBeatCounts {
    /// Workload class of the prediction.
    pub class: WorkloadClass,
    /// Label of the working-set scale.
    pub scale_label: &'static str,
    /// Working set of one region, in bytes.
    pub working_set_bytes: u64,
    /// Number of declared dependency edges.
    pub n_dependency_edges: usize,
    /// Read beats of the working-set reads.
    pub predicted_cs_read_beats_working_set: u64,
    /// Read beats of the dependency fetches.
    pub predicted_cs_read_beats_dependencies: u64,
    /// All predicted read beats.
    pub predicted_cs_read_beats_total: u64,
    /// Predicted inter-socket link beats: none on a single-socket system.
    pub predicted_xgmi_beats: u64,
    /// Whether the workload moves data through the lower-bandwidth fabric locus.
    pub activates_lower_bandwidth_locus: bool,
    /// Read beats of the undeclared baseline.
    pub undeclared_baseline_beats: u64,
    /// Structural reduction factor: baseline beats over declared beats, or one
    /// when nothing is declared.
    pub structural_reduction_factor: BeatRatio,
}

/// `r` is the prediction for `class` under `params` at the scale `scale_label`.
pub open spec fn is_prediction(
    r: PredictedBeatCounts,
    class: WorkloadClass,
    params: WorkloadParams,
    scale_label: &'static str,
) -> bool {
    &&& r.class == class
    &&& r.scale_label == scale_label
    &&& r.working_set_bytes == params.working_set_bytes_per_region
    &&& r.n_dependency_edges == dependency_graph(class, params).len()
    &&& r.predicted_cs_read_beats_working_set == working_set_beats(params)
    &&& r.predicted_cs_read_beats_dependencies == dependency_beats(class, params)
    &&& r.predicted_cs_read_beats_total == declared_beats(class, params)
    &&& r.predicted_xgmi_beats == 0
    &&& r.activates_lower_bandwidth_locus == activates_fabric(class, params)
    &&& r.undeclared_baseline_beats == baseline_beats(params)
    &&& r.structural_reduction_factor == (if declared_beats(class, params) > 0 {
        BeatRatio {
            numerator: baseline_beats(params) as u64,
            denominator: declared_beats(class, params) as u64,
        }
    } else {
        BeatRatio { numerator: 1, denominator: 1 }
    })
}

/// A prediction activates the lower-bandwidth fabric locus whenever its
/// class declares at least one dependency edge, never for the independent
/// class, which declares none, and always for the fully coupled class.
pub proof fn lemma_activation_follows_dependencies(
    r: PredictedBeatCounts,
    class: WorkloadClass,
    params: WorkloadParams,
    scale_label: &'static str,
)
    requires
        is_prediction(r, class, params, scale_label),
    ensures
        r.n_dependency_edges > 0 ==> r.activates_lower_bandwidth_locus,
        class == WorkloadClass::Independent ==> r.n_dependency_edges == 0
            && !r.activates_lower_bandwidth_locus,
        class == WorkloadClass::FullyCoupled ==> r.activates_lower_bandwidth_locus,
        r.activates_lower_bandwidth_locus ==> class != WorkloadClass::Independent,
{
    lemma_dependency_graph_shape(class, params);
}

/// Predicts the fabric read beats of `class` under `params`: working-set
/// beats, dependency beats, their total, the undeclared baseline and the
/// reduction factor between the two.
pub fn simulate(
    class: WorkloadClass,
    params: &WorkloadParams,
    scale_label: &'static str,
    topology: &FabricTopology,
) -> (r: PredictedBeatCounts)
    requires
        simulation_fits(class, *params),
        ring_admissible(topology.edges@),
    ensures
        is_prediction(r, class, *params, scale_label),
{
    let dep_graph = declare_dependency_graph(class, params);
    let n_dependency_edges = dep_graph.len();
    proof {
        lemma_dependency_graph_shape(class, *params);
        lemma_dependency_bytes(class, *params);
    }

    let ws_beats_per_region = (params.working_set_bytes_per_region + 63) / 64;
    let n = params.n_regions as u64;
    let cs_read_ws = n * ws_beats_per_region;

    let ghost b = params.bytes_per_dependency_edge;
    let mut dep_bytes_total: u64 = 0;
    let mut i: usize = 0;
    while i < dep_graph.len()
        invariant
            i <= dep_graph@.len(),
            dep_graph@ == dependency_graph(class, *params),
            b == params.bytes_per_dependency_edge,
            forall|p: int| 0 <= p < dep_graph@.len() ==> (#[trigger] dep_graph@[p]).bytes == b,
            dep_graph@.len() * b + 63 <= u64::MAX,
            dep_bytes_total == dep_bytes_sum(dep_graph@.take(i as int)),
        decreases dep_graph@.len() - i,
    {
        proof {
            let pre = dep_graph@.take(i + 1);
            assert(pre.drop_last() =~= dep_graph@.take(i as int));
            assert forall|p: int| 0 <= p < pre.len() implies (#[trigger] pre[p]).bytes == b by {
                assert(pre[p] == dep_graph@[p]);
            }
            lemma_dep_bytes_uniform(pre, b);
            assert((i + 1) * b <= dep_graph@.len() * b) by (nonlinear_arith)
                requires
                    i + 1 <= dep_graph@.len(),
            ;
        }
        dep_bytes_total = dep_bytes_total + dep_graph[i].bytes;
        i = i + 1;
    }
    assert(dep_graph@.take(dep_graph@.len() as int) =~= dep_graph@);
    let cs_read_deps = (dep_bytes_total + 63) / 64;
    let cs_read_total = cs_read_ws + cs_read_deps;

    proof {
        assert(n * n * ws_beats_per_region <= u64::MAX);
    }
    let undeclared_baseline_beats = n * n * ws_beats_per_region;

    let structural_reduction_factor = if cs_read_total > 0 {
        BeatRatio { numerator: undeclared_baseline_beats, denominator: cs_read_total }
    } else {
        BeatRatio { numerator: 1, denominator: 1 }
    };

    let xgmi_beats = 0u64;

    let activates_lower_bandwidth_locus = match class {
        WorkloadClass::Independent => false,
        WorkloadClass::WeaklyCoupled => n_dependency_edges > 0,
        WorkloadClass::FullyCoupled => true,
    };

    PredictedBeatCounts {
        class,
        scale_label,
        working_set_bytes: params.working_set_bytes_per_region,
        n_dependency_edges,
        predicted_cs_read_beats_working_set: cs_read_ws,
        predicted_cs_read_beats_dependencies: cs_read_deps,
        predicted_cs_read_beats_total: cs_read_total,
        predicted_xgmi_beats: xgmi_beats,
        activates_lower_bandwidth_locus,
        undeclared_baseline_beats,
        structural_reduction_factor,
    }
}


/// Working-set parameters of the three scales of the simulation matrix.
pub open spec fn matrix_params(scale: int) -> WorkloadParams {
    WorkloadParams {
        n_regions: 8,
        working_set_bytes_per_region: if scale == 0 {
            512_000
        } else if scale == 1 {
            4_000_000
        } else {
            16_000_000
        },
        bytes_per_dependency_edge: 64,
        n_weak_deps_per_region: 2,
    }
}

/// Label of each scale of the simulation matrix.
pub open spec fn matrix_label(scale: int) -> &'static str {
    if scale == 0 {
        "L2-resident (4MB)"
    } else if scale == 1 {
        "L3-resident (32MB)"
    } else {
        "DRAM-resident (128MB)"
    }
}

/// Workload class of each column of the simulation matrix.
pub open spec fn matrix_class(c: int) -> WorkloadClass {
    if c == 0 {
        WorkloadClass::Independent
    } else if c == 1 {
        WorkloadClass::WeaklyCoupled
    } else {
        WorkloadClass::FullyCoupled
    }
}

/// The three default working-set scales fit the simulation of every class.
proof fn lemma_matrix_fits(scale: int, c: int)
    requires
        0 <= scale < 3,
        0 <= c < 3,
    ensures
        simulation_fits(matrix_class(c), matrix_params(scale)),
{
    lemma_dependency_graph_shape(matrix_class(c), matrix_params(scale));
}

/// Runs the simulation matrix: each of the three working-set scales in turn
/// (level-2 cache, level-3 cache, memory), each with the independent, weakly
/// coupled and fully coupled classes, nine predictions in all.
pub fn run_simulation_matrix() -> (r: Vec<PredictedBeatCounts>)
    ensures
        r@.len() == 9,
        forall|k: int|
            0 <= k < 9 ==> is_prediction(
                #[trigger] r@[k],
                matrix_class(k % 3),
                matrix_params(k / 3),
                matrix_label(k / 3),
            ),
{
    let topology = declare_fabric_topology();
    let mut results: Vec<PredictedBeatCounts> = Vec::new();
    let scales: [(&'static str, WorkloadParams); 3] = [
        ("L2-resident (4MB)", WorkloadParams::default_l2()),
        ("L3-resident (32MB)", WorkloadParams::default_l3()),
        ("DRAM-resident (128MB)", WorkloadParams::default_dram()),
    ];
    let classes = [
        WorkloadClass::Independent,
        WorkloadClass::WeaklyCoupled,
        WorkloadClass::FullyCoupled,
    ];
    for s in 0..3
        invariant
            ring_admissible(topology.edges@),
            results@.len() == 3 * s,
            forall|j: int| 0 <= j < 3 ==> (#[trigger] scales[j]).0 == matrix_label(j),
            forall|j: int| 0 <= j < 3 ==> (#[trigger] scales[j]).1 == matrix_params(j),
            forall|c: int| 0 <= c < 3 ==> #[trigger] classes[c] == matrix_class(c),
            forall|k: int|
                0 <= k < 3 * s ==> is_prediction(
                    #[trigger] results@[k],
                    matrix_class(k % 3),
                    matrix_params(k / 3),
                    matrix_label(k / 3),
                ),
    {
        let label = scales[s].0;
        let params = &scales[s].1;
        for c in 0..3
            invariant
                s < 3,
                ring_admissible(topology.edges@),
                label == matrix_label(s as int),
                *params == matrix_params(s as int),
                forall|c: int| 0 <= c < 3 ==> #[trigger] classes[c] == matrix_class(c),
                results@.len() == 3 * s + c,
                forall|k: int|
                    0 <= k < 3 * s + c ==> is_prediction(
                        #[trigger] results@[k],
                        matrix_class(k % 3),
                        matrix_params(k / 3),
                        matrix_label(k / 3),
                    ),
        {
            proof {
                lemma_matrix_fits(s as int, c as int);
            }
            let class = classes[c];
            results.push(simulate(class, params, label, &topology));
            proof {
                let k = 3 * s + c;
                assert(k % 3 == c && k / 3 == s);
            }
        }
    }
    results
}


/// The structural reduction of the independent class is fixed by the
/// topology: the undeclared baseline is exactly `n` times the declared read
/// beats, whatever the working-set scale.
pub proof fn lemma_independent_reduction_is_region_count(params: WorkloadParams)
    ensures
        baseline_beats(params) == params.n_regions * declared_beats(
            WorkloadClass::Independent,
            params,
        ),
{
    let n = params.n_regions as int;
    let c = ceil_beats(params.working_set_bytes_per_region as int);
    assert(dependency_graph(WorkloadClass::Independent, params) =~= Seq::empty());
    assert(n * n * c == n * (n * c)) by (nonlinear_arith);
}

/// Without declared structure there is more traffic: for two or more regions
/// with a non-empty working set, the undeclared baseline exceeds the read
/// beats the independent class is predicted to move.
pub proof fn lemma_baseline_exceeds_independent(params: WorkloadParams)
    requires
        params.n_regions >= 2,
        params.working_set_bytes_per_region > 0,
    ensures
        baseline_beats(params) > declared_beats(WorkloadClass::Independent, params),
{
    let n = params.n_regions as int;
    let ws = params.working_set_bytes_per_region as int;
    let c = ceil_beats(ws);
    assert(dependency_graph(WorkloadClass::Independent, params) =~= Seq::empty());
    assert(c >= 1 && 64 * c >= ws);
    assert(n * n * c > n * c) by (nonlinear_arith)
        requires
            n >= 2,
            c >= 1,
    ;
}

/// Declared read beats grow with coupling: with `0 < k < n - 1` weak
/// dependencies per region and at least one beat per dependency edge, the
/// independent class moves fewer beats than the weakly coupled class, which
/// moves fewer than the fully coupled class. All three share one baseline,
/// so with a non-empty working set the reduction factor (baseline over
/// declared beats) falls in the same order.
pub proof fn lemma_beats_grow_with_coupling(params: WorkloadParams)
    requires
        0 < params.n_weak_deps_per_region,
        params.n_weak_deps_per_region + 1 < params.n_regions,
        params.bytes_per_dependency_edge >= 64,
    ensures
        declared_beats(WorkloadClass::Independent, params) < declared_beats(
            WorkloadClass::WeaklyCoupled,
            params,
        ),
        declared_beats(WorkloadClass::WeaklyCoupled, params) < declared_beats(
            WorkloadClass::FullyCoupled,
            params,
        ),
        params.working_set_bytes_per_region > 0 ==> {
            let base = baseline_beats(params);
            let ind = declared_beats(WorkloadClass::Independent, params);
            let weak = declared_beats(WorkloadClass::WeaklyCoupled, params);
            let full = declared_beats(WorkloadClass::FullyCoupled, params);
            // base / ind > base / weak > base / full
            &&& ind > 0
            &&& base * weak > base * ind
            &&& base * full > base * weak
        },
{
    let n = params.n_regions as int;
    let k = params.n_weak_deps_per_region as int;
    let b = params.bytes_per_dependency_edge as int;
    lemma_dependency_graph_shape(WorkloadClass::Independent, params);
    lemma_dependency_graph_shape(WorkloadClass::WeaklyCoupled, params);
    lemma_dependency_graph_shape(WorkloadClass::FullyCoupled, params);
    lemma_dependency_bytes(WorkloadClass::Independent, params);
    lemma_dependency_bytes(WorkloadClass::WeaklyCoupled, params);
    lemma_dependency_bytes(WorkloadClass::FullyCoupled, params);
    assert(k / n == 0) by {
        vstd::arithmetic::div_mod::lemma_basic_div(k, n);
    }
    let weak = n * k * b;
    let full = n * (n - 1) * b;
    assert(weak >= 64) by (nonlinear_arith)
        requires
            n >= 1,
            k >= 1,
            b >= 64,
            weak == n * k * b,
    ;
    assert(full >= weak + 64) by (nonlinear_arith)
        requires
            n - 1 >= k + 1,
            n >= 1,
            b >= 64,
            weak == n * k * b,
            full == n * (n - 1) * b,
    ;
    assert(ceil_beats(0) == 0);
    assert(ceil_beats(weak) >= 1);
    assert(ceil_beats(full) >= ceil_beats(weak) + 1) by (nonlinear_arith)
        requires
            full >= weak + 64,
            weak >= 0,
    ;
    assert(dependency_graph(WorkloadClass::WeaklyCoupled, params).len() * b == weak) by (
    nonlinear_arith)
        requires
            dependency_graph(WorkloadClass::WeaklyCoupled, params).len() == n * (k - k / n),
            k / n == 0,
            weak == n * k * b,
    ;
    assert(dependency_graph(WorkloadClass::FullyCoupled, params).len() * b == full);
    if params.working_set_bytes_per_region > 0 {
        let base = baseline_beats(params);
        let ind = declared_beats(WorkloadClass::Independent, params);
        let weak = declared_beats(WorkloadClass::WeaklyCoupled, params);
        let full = declared_beats(WorkloadClass::FullyCoupled, params);
        let ws = params.working_set_bytes_per_region as int;
        assert(ceil_beats(ws) >= 1);
        assert(n * ceil_beats(ws) >= 1) by (nonlinear_arith)
            requires
                ceil_beats(ws) >= 1,
                n >= 1,
        ;
        assert(ind > 0);
        assert(base > 0) by (nonlinear_arith)
            requires
                base == n * n * ceil_beats(ws),
                n >= 1,
                ceil_beats(ws) >= 1,
        ;
        assert(base * weak > base * ind) by (nonlinear_arith)
            requires
                base > 0,
                weak > ind,
        ;
        assert(base * full > base * weak) by (nonlinear_arith)
            requires
                base > 0,
                full > weak,
        ;
    }
}


/// Opening lines of the comparison table, before the column header.
pub const TABLE_PREAMBLE: &'static str = "Simulation → Hardware Comparison Table — Phase 1: Structural Reduction\nMetatron Dynamics — abr-infinity-fabric\nPredicted values from declared relational structure.\nHardware values: measure via uProf MSR mode, DF PMC events.\nCS events: sum local_processor_read_data_beats_csN across all CS instances.\nxGMI events: sum local_socket_outbound_data_beats_linkN (expected zero on desktop).\nOC-IF-SIM-1 OPEN: scope limited to IOD boundary on Ryzen 7600X.\nOC-IF-SIM-2 OPEN: O(n^2) complexity interaction declared for Phase 2.\nBaseline: undeclared stateless system — all regions fetch all other regions.\nReduction factor: baseline_beats / declared_beats (fixed by topology).\n\n";

/// Column header of the comparison table.
pub const TABLE_HEADER: &'static str = "Scale                        Class             Dep Edges Declared Beats     Baseline      Reduction       xGMI\n";

/// Closing lines of the comparison table, after the rows.
pub const TABLE_FOOTER: &'static str = "\nHardware measurement columns to add:\n  CS_READ_MEASURED   — sum of local_processor_read_data_beats_csN\n  CS_WRITE_MEASURED  — sum of local_processor_write_data_beats_csN\n  CCM_IN_MEASURED    — sum of local_socket_inf0_inbound_data_beats_ccmN\n  XGMI_MEASURED      — sum of local_socket_outbound_data_beats_linkN\n  CPI                — from V13 measurement protocol (core PMC)\n  DRAM_PTI           — from V13 measurement protocol (core PMC)\n";

/// Name of a workload class.
pub open spec fn class_name(class: WorkloadClass) -> &'static str {
    match class {
        WorkloadClass::Independent => "Independent",
        WorkloadClass::WeaklyCoupled => "WeaklyCoupled",
        WorkloadClass::FullyCoupled => "FullyCoupled",
    }
}

fn class_name_text(class: WorkloadClass) -> (s: &'static str)
    ensures
        s == class_name(class),
{
    match class {
        WorkloadClass::Independent => "Independent",
        WorkloadClass::WeaklyCoupled => "WeaklyCoupled",
        WorkloadClass::FullyCoupled => "FullyCoupled",
    }
}

/// A reduction factor to one decimal, as dividing the two beat counts in
/// double precision and rendering the quotient gives it: `inf` or `NaN` for
/// a zero denominator, `0.0` for a zero numerator.
pub open spec fn factor_text(r: BeatRatio) -> Seq<char> {
    if r.denominator == 0 {
        if r.numerator == 0 {
            "NaN"@
        } else {
            "inf"@
        }
    } else if r.numerator == 0 {
        "0.0"@
    } else {
        let (m, e) = binary64_quotient(r.numerator as nat, r.denominator as nat);
        binary_tenths(m, e)
    }
}

/// Left half of a table row: scale, class, dependency edges and declared
/// beats, in columns.
pub open spec fn table_row_left(r: PredictedBeatCounts) -> Seq<char> {
    pad_right(r.scale_label@, 28) + " "@ + pad_right(class_name(r.class)@, 16) + " "@ + pad_left(
        decimal(r.n_dependency_edges as nat),
        10,
    ) + " "@ + pad_left(decimal(r.predicted_cs_read_beats_total as nat), 14)
}

/// Right half of a table row: baseline, reduction factor and inter-socket
/// beats, in columns, and the line break.
pub open spec fn table_row_right(r: PredictedBeatCounts) -> Seq<char> {
    " "@ + pad_left(decimal(r.undeclared_baseline_beats as nat), 12) + " "@ + pad_left(
        factor_text(r.structural_reduction_factor),
        13,
    ) + "x"@ + " "@ + pad_left(decimal(r.predicted_xgmi_beats as nat), 10) + "\n"@
}

/// One row of the comparison table: scale, class, dependency edges, declared
/// beats, baseline, reduction factor and inter-socket beats, in columns.
pub open spec fn table_row(r: PredictedBeatCounts) -> Seq<char> {
    table_row_left(r) + table_row_right(r)
}

/// Rows of the comparison table, one per prediction, in order.
pub open spec fn table_rows(results: Seq<PredictedBeatCounts>) -> Seq<char>
    decreases results.len(),
{
    if results.len() == 0 {
        Seq::empty()
    } else {
        table_rows(results.drop_last()) + table_row(results.last())
    }
}

/// Text of the comparison table.
pub open spec fn comparison_table_text(results: Seq<PredictedBeatCounts>) -> Seq<char> {
    TABLE_PREAMBLE@ + TABLE_HEADER@ + repeated('-', 110) + "\n"@ + table_rows(results)
        + TABLE_FOOTER@
}

fn factor_string(ratio: BeatRatio) -> (s: String)
    ensures
        s@ == factor_text(ratio),
{
    proof {
        reveal_strlit("NaN");
        reveal_strlit("inf");
        reveal_strlit("0.0");
    }
    if ratio.denominator == 0 {
        if ratio.numerator == 0 {
            String::from_str("NaN")
        } else {
            String::from_str("inf")
        }
    } else if ratio.numerator == 0 {
        String::from_str("0.0")
    } else {
        binary64_quotient_text(ratio.numerator, ratio.denominator)
    }
}

fn append_table_row_left(out: &mut String, r: &PredictedBeatCounts)
    ensures
        final(out)@ == old(out)@ + table_row_left(*r),
{
    append_padded_right(out, r.scale_label, 28);
    out.append(" ");
    append_padded_right(out, class_name_text(r.class), 16);
    out.append(" ");
    let edges = decimal_text(r.n_dependency_edges as u128);
    append_padded_left(out, edges.as_str(), 10);
    out.append(" ");
    let declared = decimal_text(r.predicted_cs_read_beats_total as u128);
    append_padded_left(out, declared.as_str(), 14);
}

fn append_table_row_right(out: &mut String, r: &PredictedBeatCounts)
    ensures
        final(out)@ == old(out)@ + table_row_right(*r),
{
    out.append(" ");
    let baseline = decimal_text(r.undeclared_baseline_beats as u128);
    append_padded_left(out, baseline.as_str(), 12);
    out.append(" ");
    let factor = factor_string(r.structural_reduction_factor);
    append_padded_left(out, factor.as_str(), 13);
    out.append("x");
    out.append(" ");
    let xgmi = decimal_text(r.predicted_xgmi_beats as u128);
    append_padded_left(out, xgmi.as_str(), 10);
    out.append("\n");
}

/// Formats the predictions as a comparison table, one row per prediction,
/// with the hardware counters to measure beside them.
pub fn format_comparison_table(results: &[PredictedBeatCounts]) -> (out: String)
    ensures
        out@ == comparison_table_text(results@),
{
    let mut out = String::from_str(TABLE_PREAMBLE);
    out.append(TABLE_HEADER);
    proof {
        reveal_strlit("-");
    }
    append_repeated(&mut out, "-", 110);
    out.append("\n");
    let ghost head = out@;
    for i in 0..results.len()
        invariant
            head == TABLE_PREAMBLE@ + TABLE_HEADER@ + repeated('-', 110) + "\n"@,
            out@ == head + table_rows(results@.take(i as int)),
    {
        append_table_row_left(&mut out, &results[i]);
        append_table_row_right(&mut out, &results[i]);
        proof {
            assert(results@.take(i + 1).drop_last() =~= results@.take(i as int));
        }
    }
    assert(results@.take(results@.len() as int) =~= results@);
    out.append(TABLE_FOOTER);
    out
}

} // verus!
