//! Partition of independent community analyses over the accelerator modules,
//! and the four admissibility conditions it must meet: each module's working
//! set fits its memory (AC-1), inter-module traffic fits the fabric (AC-2), no
//! module declares negative traffic (AC-3), and analyses stay within one
//! module (AC-4, which independence gives by construction).
use vstd::prelude::*;
use crate::fabric_topology::{
    FabricEdge,
    FabricTopology,
    FABRIC_SWITCH,
    bw_sum,
    lemma_bw_sum_bound,
    lemma_bw_sum_push,
};
use crate::workload_graph::{
    CommunityWorkloadGraph,
    N_OAM_MODULES,
    HBM3E_BYTES_PER_MODULE,
    copies_per_module,
};
use crate::seq_lemmas::{lemma_filter_push, lemma_filter_take_step};
use crate::text::{decimal, decimal_text, tenths, tenths_text};

verus! {

/// Description of the admissible partition of independent analyses.
pub const INDEPENDENT_PARTITION_STRATEGY: &'static str = "Independent community analysis partition: each module executes assigned community graphs independently. Working set fits entirely in HBM3E. Zero inter-module communication required. ABR kernel executes at full HBM3E bandwidth per module.";

/// Outcome of the admissibility check.
#[derive(Debug, Clone)]
pub enum PartitionResult {
    /// Every admissibility condition holds.
    AdmissiblePass {
        /// Description of the partition strategy.
        strategy: &'static str,
        /// Inter-module bandwidth required, in MB/s.
        inter_module_bandwidth_required_mb_s: i128,
        /// Whether the fabric switch carries any of the workload's traffic.
        fabric_bottleneck_active: bool,
    },
    /// An admissibility condition fails.
    FailedCondition {
        /// The condition that fails.
        condition: &'static str,
        /// What was found.
        finding: String,
    },
}

/// Assignment of analyses to one accelerator module.
#[derive(Debug, Clone)]
pub struct ModuleAssignment {
    /// Module index.
    pub module_index: usize,
    /// Number of community analyses assigned to the module.
    pub n_communities: u64,
    /// Working set of all assigned analyses, in bytes.
    pub total_working_set_bytes: u64,
    /// Inter-module bandwidth the module requires, in MB/s.
    pub inter_module_bw_required_mb_s: i64,
}

/// Assignment of analyses to all accelerator modules.
#[derive(Debug, Clone)]
pub struct PartitionAssignment {
    /// Assignment of each module.
    pub modules: Vec<ModuleAssignment>,
    /// Analyses across all modules.
    pub total_communities: u64,
    /// Whether the assignment is meant to be admissible.
    pub admissible: bool,
}

/// Derives the partition of independent analyses of `graph`: each of the
/// eight modules holds as many analyses as fit its memory, with no
/// inter-module traffic.
pub fn derive_partition_assignment(graph: &CommunityWorkloadGraph, _topology: &FabricTopology) -> (a:
    PartitionAssignment)
    ensures
        a.modules@.len() == N_OAM_MODULES,
        forall|i: int|
            0 <= i < N_OAM_MODULES ==> {
                let m = #[trigger] a.modules@[i];
                &&& m.module_index == i
                &&& m.n_communities == copies_per_module(graph.working_set_bytes)
                &&& m.total_working_set_bytes == copies_per_module(graph.working_set_bytes)
                    * graph.working_set_bytes
                &&& m.inter_module_bw_required_mb_s == 0
            },
        a.total_communities == copies_per_module(graph.working_set_bytes) * N_OAM_MODULES,
        a.admissible,
{
    let per_module = graph.simultaneous_per_module();
    let total = per_module * N_OAM_MODULES as u64;
    let mut modules: Vec<ModuleAssignment> = Vec::new();
    for i in 0..N_OAM_MODULES
        invariant
            per_module == copies_per_module(graph.working_set_bytes),
            per_module * graph.working_set_bytes <= HBM3E_BYTES_PER_MODULE,
            modules@.len() == i,
            forall|j: int|
                0 <= j < i ==> {
                    let m = #[trigger] modules@[j];
                    &&& m.module_index == j
                    &&& m.n_communities == per_module
                    &&& m.total_working_set_bytes == per_module * graph.working_set_bytes
                    &&& m.inter_module_bw_required_mb_s == 0
                },
    {
        modules.push(
            ModuleAssignment {
                module_index: i,
                n_communities: per_module,
                total_working_set_bytes: per_module * graph.working_set_bytes,
                inter_module_bw_required_mb_s: 0,
            },
        );
    }
    PartitionAssignment { modules, total_communities: total, admissible: true }
}

/// Index of the first module satisfying `p`, or the number of modules when
/// none does.
pub open spec fn first_index(ms: Seq<ModuleAssignment>, p: spec_fn(ModuleAssignment) -> bool) -> int
    decreases ms.len(),
{
    if ms.len() == 0 {
        0
    } else if p(ms[0]) {
        0
    } else {
        1 + first_index(ms.drop_first(), p)
    }
}

/// A module whose working set exceeds its memory (AC-1 violated).
pub open spec fn over_capacity() -> spec_fn(ModuleAssignment) -> bool {
    |m: ModuleAssignment| m.total_working_set_bytes > HBM3E_BYTES_PER_MODULE
}

/// A module that declares negative inter-module bandwidth (AC-3 violated).
pub open spec fn negative_bandwidth() -> spec_fn(ModuleAssignment) -> bool {
    |m: ModuleAssignment| m.inter_module_bw_required_mb_s < 0
}

/// Total inter-module bandwidth the modules require, in MB/s.
pub open spec fn required_bw(ms: Seq<ModuleAssignment>) -> int
    decreases ms.len(),
{
    if ms.len() == 0 {
        0
    } else {
        required_bw(ms.drop_last()) + ms.last().inter_module_bw_required_mb_s
    }
}

/// The required bandwidth adds up over modules: the modules of `ms`
/// followed by those of `ns` require what `ms` requires plus what `ns`
/// requires.
pub proof fn lemma_required_bw_concat(ms: Seq<ModuleAssignment>, ns: Seq<ModuleAssignment>)
    ensures
        required_bw(ms + ns) == required_bw(ms) + required_bw(ns),
    decreases ns.len(),
{
    if ns.len() == 0 {
        assert(ms + ns =~= ms);
    } else {
        assert((ms + ns).drop_last() =~= ms + ns.drop_last());
        lemma_required_bw_concat(ms, ns.drop_last());
    }
}

/// One module requires its own inter-module bandwidth; no modules require
/// none.
pub proof fn lemma_required_bw_single(m: ModuleAssignment)
    ensures
        required_bw(seq![m]) == m.inter_module_bw_required_mb_s,
        required_bw(Seq::<ModuleAssignment>::empty()) == 0,
{
    assert(seq![m].drop_last() =~= Seq::<ModuleAssignment>::empty());
    assert(required_bw(Seq::<ModuleAssignment>::empty()) == 0);
    assert(seq![m].last() == m);
}

/// Modules that each require `c` MB/s require their number times `c`.
pub proof fn lemma_required_bw_uniform(ms: Seq<ModuleAssignment>, c: i64)
    requires
        forall|i: int| 0 <= i < ms.len() ==> (#[trigger] ms[i]).inter_module_bw_required_mb_s == c,
    ensures
        required_bw(ms) == ms.len() * c,
    decreases ms.len(),
{
    if ms.len() > 0 {
        let init = ms.drop_last();
        assert forall|i: int| 0 <= i < init.len() implies (#[trigger] init[i]).inter_module_bw_required_mb_s
            == c by {
            assert(init[i] == ms[i]);
        }
        lemma_required_bw_uniform(init, c);
        assert(ms.len() * c == init.len() * c + c) by (nonlinear_arith)
            requires
                ms.len() == init.len() + 1,
        ;
    }
}

/// Edges that touch the fabric switch.
pub open spec fn switch_edges(edges: Seq<FabricEdge>) -> Seq<FabricEdge> {
    edges.filter(|e: FabricEdge| e.source == FABRIC_SWITCH || e.target == FABRIC_SWITCH)
}

/// AC-2 fails: the modules require inter-module bandwidth, and more of it
/// than the fabric carries, half the bandwidth of the links at the switch
/// (each transfer crosses two of them).
pub open spec fn fabric_overloaded(ms: Seq<ModuleAssignment>, edges: Seq<FabricEdge>) -> bool {
    required_bw(ms) > 0 && 2 * required_bw(ms) > bw_sum(switch_edges(edges))
}

/// The switch links' total follows the edges: appending an edge that
/// touches the switch raises it by exactly that edge's bandwidth, and any
/// other edge leaves it unchanged.
pub proof fn lemma_switch_bandwidth_push(edges: Seq<FabricEdge>, e: FabricEdge)
    ensures
        bw_sum(switch_edges(edges.push(e))) == bw_sum(switch_edges(edges)) + (if e.source
            == FABRIC_SWITCH || e.target == FABRIC_SWITCH {
            e.bandwidth_mb_s as int
        } else {
            0
        }),
{
    lemma_filter_push(edges, e, |x: FabricEdge| x.source == FABRIC_SWITCH || x.target == FABRIC_SWITCH);
    lemma_bw_sum_push(switch_edges(edges), e);
}

/// AC-2 only ever fails on demand: modules that require no inter-module
/// bandwidth never overload the fabric, and adding a module that requires
/// some to an overloaded partition keeps it overloaded.
pub proof fn lemma_overload_follows_demand(
    ms: Seq<ModuleAssignment>,
    m: ModuleAssignment,
    edges: Seq<FabricEdge>,
)
    ensures
        (forall|i: int| 0 <= i < ms.len() ==> (#[trigger] ms[i]).inter_module_bw_required_mb_s == 0)
            ==> !fabric_overloaded(ms, edges),
        fabric_overloaded(ms, edges) && m.inter_module_bw_required_mb_s >= 0 ==> fabric_overloaded(
            ms.push(m),
            edges,
        ),
{
    if forall|i: int| 0 <= i < ms.len() ==> (#[trigger] ms[i]).inter_module_bw_required_mb_s == 0 {
        lemma_required_bw_uniform(ms, 0);
    }
    lemma_required_bw_single(m);
    assert(ms.push(m) =~= ms + seq![m]);
    lemma_required_bw_concat(ms, seq![m]);
}

/// Finding of an AC-1 failure.
pub open spec fn ac1_finding(m: ModuleAssignment) -> Seq<char> {
    "Module "@ + decimal(m.module_index as nat) + " working set "@ + decimal(
        m.total_working_set_bytes as nat,
    ) + " bytes exceeds HBM3E capacity "@ + decimal(HBM3E_BYTES_PER_MODULE as nat) + " bytes"@
}

/// Finding of an AC-2 failure: the required bandwidth and the fabric
/// aggregate (half the switch links' total, one per direction), in GB/s to
/// one decimal.
pub open spec fn ac2_finding(required: nat, switch_link_bw: nat) -> Seq<char> {
    "Required inter-module bandwidth "@ + tenths(required, 100) + " GB/s exceeds declared fabric aggregate "@
        + tenths(switch_link_bw, 200) + " GB/s"@
}

/// Finding of an AC-3 failure.
pub open spec fn ac3_finding(m: ModuleAssignment) -> Seq<char> {
    "Module "@ + decimal(m.module_index as nat) + " has undeclared negative bandwidth: -"@
        + tenths((-m.inter_module_bw_required_mb_s) as nat, 100) + " GB/s"@
}

/// The first index scanned past every module without `p` is that module's
/// index, or the number of modules when none has `p`.
proof fn lemma_first_index(ms: Seq<ModuleAssignment>, p: spec_fn(ModuleAssignment) -> bool, k: int)
    requires
        0 <= k <= ms.len(),
        forall|j: int| 0 <= j < k ==> !p(#[trigger] ms[j]),
        k < ms.len() ==> p(ms[k]),
    ensures
        first_index(ms, p) == k,
    decreases ms.len(),
{
    if ms.len() > 0 && k > 0 {
        assert forall|j: int| 0 <= j < k - 1 implies !p(#[trigger] ms.drop_first()[j]) by {
            assert(ms.drop_first()[j] == ms[j + 1]);
        }
        assert(!p(ms[0]));
        if k < ms.len() {
            assert(ms.drop_first()[k - 1] == ms[k]);
        }
        lemma_first_index(ms.drop_first(), p, k - 1);
    }
}

/// The required bandwidth of `n` modules lies within `n` times the range of
/// an `i64`.
proof fn lemma_required_bw_bound(ms: Seq<ModuleAssignment>)
    ensures
        ms.len() * (i64::MIN as int) <= required_bw(ms) <= ms.len() * (i64::MAX as int),
    decreases ms.len(),
{
    if ms.len() > 0 {
        lemma_required_bw_bound(ms.drop_last());
    }
}


/// `r` reports that `condition` fails, with `finding`.
pub open spec fn fails_with(r: PartitionResult, condition: &'static str, finding: Seq<char>) -> bool {
    match r {
        PartitionResult::FailedCondition { condition: c, finding: f } => c == condition && f@
            == finding,
        PartitionResult::AdmissiblePass { .. } => false,
    }
}

/// `r` reports that every condition holds, with `required` MB/s of
/// inter-module bandwidth and the switch active exactly when it is positive.
pub open spec fn passes_with(r: PartitionResult, required: int) -> bool {
    match r {
        PartitionResult::AdmissiblePass {
            strategy,
            inter_module_bandwidth_required_mb_s,
            fabric_bottleneck_active,
        } => strategy == INDEPENDENT_PARTITION_STRATEGY && inter_module_bandwidth_required_mb_s
            == required && fabric_bottleneck_active == (required > 0),
        PartitionResult::FailedCondition { .. } => false,
    }
}

fn ac1_text(m: &ModuleAssignment) -> (f: String)
    ensures
        f@ == ac1_finding(*m),
{
    let mut f = String::from_str("Module ");
    f.append(decimal_text(m.module_index as u128).as_str());
    f.append(" working set ");
    f.append(decimal_text(m.total_working_set_bytes as u128).as_str());
    f.append(" bytes exceeds HBM3E capacity ");
    f.append(decimal_text(HBM3E_BYTES_PER_MODULE as u128).as_str());
    f.append(" bytes");
    f
}

fn ac2_text(required: u128, switch_link_bw: u128) -> (f: String)
    ensures
        f@ == ac2_finding(required as nat, switch_link_bw as nat),
{
    let mut f = String::from_str("Required inter-module bandwidth ");
    f.append(tenths_text(required, 100).as_str());
    f.append(" GB/s exceeds declared fabric aggregate ");
    f.append(tenths_text(switch_link_bw, 200).as_str());
    f.append(" GB/s");
    f
}

fn ac3_text(m: &ModuleAssignment) -> (f: String)
    requires
        m.inter_module_bw_required_mb_s < 0,
    ensures
        f@ == ac3_finding(*m),
{
    let mut f = String::from_str("Module ");
    f.append(decimal_text(m.module_index as u128).as_str());
    f.append(" has undeclared negative bandwidth: -");
    let magnitude = ((-(m.inter_module_bw_required_mb_s + 1)) as u128) + 1;
    f.append(tenths_text(magnitude, 100).as_str());
    f.append(" GB/s");
    f
}

fn switch_link_bandwidth(topology: &FabricTopology) -> (r: u128)
    ensures
        r == bw_sum(switch_edges(topology.edges@)),
{
    let ghost edges = topology.edges@;
    let ghost pred = |e: FabricEdge| e.source == FABRIC_SWITCH || e.target == FABRIC_SWITCH;
    let mut sum: u128 = 0;
    let mut i: usize = 0;
    while i < topology.edges.len()
        invariant
            edges == topology.edges@,
            i <= edges.len(),
            pred == (|e: FabricEdge| e.source == FABRIC_SWITCH || e.target == FABRIC_SWITCH),
            sum == bw_sum(edges.take(i as int).filter(pred)),
        decreases edges.len() - i,
    {
        let e = &topology.edges[i];
        proof {
            lemma_filter_take_step(edges, pred, i as int);
            let f = edges.take(i as int).filter(pred);
            assert(f.push(edges[i as int]).drop_last() =~= f);
            lemma_bw_sum_bound(f);
            edges.take(i as int).lemma_filter_len(pred);
            assert(f.len() * (u64::MAX as int) + (u64::MAX as int) < u128::MAX) by (nonlinear_arith)
                requires
                    f.len() <= i,
                    i < usize::MAX,
                    usize::MAX <= u64::MAX,
            ;
        }
        if e.source == FABRIC_SWITCH || e.target == FABRIC_SWITCH {
            sum = sum + e.bandwidth_mb_s as u128;
        }
        i = i + 1;
    }
    assert(edges.take(edges.len() as int) =~= edges);
    sum
}

/// Checks the admissibility conditions in order and reports the first that
/// fails: AC-1 at the first module whose working set exceeds its memory;
/// AC-2 when the modules require more inter-module bandwidth than the fabric
/// carries; AC-3 at the first module declaring negative bandwidth. When all
/// hold, the partition passes with its required bandwidth, and the switch is
/// an active constraint exactly when that bandwidth is positive.
pub fn admissibility_check(
    assignment: &PartitionAssignment,
    graph: &CommunityWorkloadGraph,
    topology: &FabricTopology,
) -> (r: PartitionResult)
    ensures
        ({
            let ms = assignment.modules@;
            let k1 = first_index(ms, over_capacity());
            let k3 = first_index(ms, negative_bandwidth());
            let overloaded = fabric_overloaded(ms, topology.edges@);
            &&& k1 < ms.len() ==> fails_with(r, "AC-1", ac1_finding(ms[k1]))
            &&& k1 >= ms.len() && overloaded ==> fails_with(
                r,
                "AC-2",
                ac2_finding(required_bw(ms) as nat, bw_sum(switch_edges(topology.edges@)) as nat),
            )
            &&& k1 >= ms.len() && !overloaded && k3 < ms.len() ==> fails_with(
                r,
                "AC-3",
                ac3_finding(ms[k3]),
            )
            &&& k1 >= ms.len() && !overloaded && k3 >= ms.len() ==> passes_with(
                r,
                required_bw(ms),
            )
        }),
{
    let ghost ms = assignment.modules@;
    let n = assignment.modules.len();
    // AC-1: each module's working set fits its memory.
    for i in 0..n
        invariant
            n == ms.len(),
            ms == assignment.modules@,
            forall|j: int| 0 <= j < i ==> !over_capacity()(#[trigger] ms[j]),
    {
        let m = &assignment.modules[i];
        if m.total_working_set_bytes > HBM3E_BYTES_PER_MODULE {
            proof {
                lemma_first_index(ms, over_capacity(), i as int);
            }
            return PartitionResult::FailedCondition { condition: "AC-1", finding: ac1_text(m) };
        }
    }
    proof {
        lemma_first_index(ms, over_capacity(), n as int);
    }
    // AC-2: inter-module traffic fits the fabric.
    let mut total_inter_module_bw: i128 = 0;
    for i in 0..n
        invariant
            n == ms.len(),
            ms == assignment.modules@,
            total_inter_module_bw == required_bw(ms.take(i as int)),
    {
        proof {
            assert(ms.take(i + 1).drop_last() =~= ms.take(i as int));
            lemma_required_bw_bound(ms.take(i as int));
            assert(i * (i64::MAX as int) + (i64::MAX as int) <= i128::MAX) by (nonlinear_arith)
                requires
                    i < usize::MAX,
                    usize::MAX <= u64::MAX,
            ;
            assert(i * (i64::MIN as int) + (i64::MIN as int) >= i128::MIN) by (nonlinear_arith)
                requires
                    i < usize::MAX,
                    usize::MAX <= u64::MAX,
            ;
        }
        total_inter_module_bw = total_inter_module_bw
            + assignment.modules[i].inter_module_bw_required_mb_s as i128;
    }
    assert(ms.take(n as int) =~= ms);
    if total_inter_module_bw > 0 {
        let fabric_bw = switch_link_bandwidth(topology);
        let required = total_inter_module_bw as u128;
        if required * 2 > fabric_bw {
            return PartitionResult::FailedCondition {
                condition: "AC-2",
                finding: ac2_text(required, fabric_bw),
            };
        }
    }
    // AC-3: no module declares negative inter-module traffic.
    for i in 0..n
        invariant
            n == ms.len(),
            ms == assignment.modules@,
            forall|j: int| 0 <= j < i ==> !negative_bandwidth()(#[trigger] ms[j]),
            first_index(ms, over_capacity()) == n,
            !fabric_overloaded(ms, topology.edges@),
    {
        let m = &assignment.modules[i];
        if m.inter_module_bw_required_mb_s < 0 {
            proof {
                lemma_first_index(ms, negative_bandwidth(), i as int);
            }
            return PartitionResult::FailedCondition { condition: "AC-3", finding: ac3_text(m) };
        }
    }
    proof {
        lemma_first_index(ms, negative_bandwidth(), n as int);
    }
    // AC-4: each independent analysis runs within one module; nothing crosses
    // a partition boundary.
    PartitionResult::AdmissiblePass {
        strategy: INDEPENDENT_PARTITION_STRATEGY,
        inter_module_bandwidth_required_mb_s: total_inter_module_bw,
        fabric_bottleneck_active: total_inter_module_bw > 0,
    }
}

/// Whether a partition result closes the kernel-to-hardware mapping: exactly
/// when every admissibility condition holds.
pub fn oc_db1_closed(result: &PartitionResult) -> (r: bool)
    ensures
        r == (result is AdmissiblePass),
{
    match result {
        PartitionResult::AdmissiblePass { .. } => true,
        PartitionResult::FailedCondition { .. } => false,
    }
}


/// The partition derived for independent analyses always passes the
/// admissibility check: whatever the fabric, no module exceeds its memory,
/// no inter-module bandwidth is required, none is negative, and so the
/// switch is no active constraint.
pub proof fn lemma_derived_partition_admissible(
    ms: Seq<ModuleAssignment>,
    ws: u64,
    edges: Seq<FabricEdge>,
)
    requires
        forall|i: int|
            0 <= i < ms.len() ==> {
                let m = #[trigger] ms[i];
                &&& m.total_working_set_bytes == copies_per_module(ws) * ws
                &&& m.inter_module_bw_required_mb_s == 0
            },
    ensures
        first_index(ms, over_capacity()) == ms.len(),
        first_index(ms, negative_bandwidth()) == ms.len(),
        required_bw(ms) == 0,
        !fabric_overloaded(ms, edges),
    decreases ms.len(),
{
    assert(copies_per_module(ws) * ws <= HBM3E_BYTES_PER_MODULE) by (nonlinear_arith)
        requires
            ws > 0 ==> copies_per_module(ws) == HBM3E_BYTES_PER_MODULE / ws,
            ws == 0 ==> copies_per_module(ws) == 0,
    ;
    lemma_first_index(ms, over_capacity(), ms.len() as int);
    lemma_first_index(ms, negative_bandwidth(), ms.len() as int);
    if ms.len() > 0 {
        let init = ms.drop_last();
        assert forall|i: int| 0 <= i < init.len() implies {
            let m = #[trigger] init[i];
            &&& m.total_working_set_bytes == copies_per_module(ws) * ws
            &&& m.inter_module_bw_required_mb_s == 0
        } by {
            assert(init[i] == ms[i]);
        }
        lemma_derived_partition_admissible(init, ws, edges);
        assert(ms.last() == ms[ms.len() - 1]);
    }
}

} // verus!
