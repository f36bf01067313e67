//! Memory kernels of the dependency-class timing benchmark: buffers laid out
//! as pointer-chase permutations, and one pass of each workload class, which
//! chases its own buffer and the buffers it depends on.
use vstd::prelude::*;
use crate::fabric_sim::{WorkloadClass, region_indices};
use crate::seq_lemmas::lemma_flatten_uniform_len;

verus! {

broadcast use Seq::lemma_flatten_push;

/// Number of data regions of the benchmark.
pub const BENCH_REGIONS: usize = 8;

/// Weak dependencies per region of the benchmark.
pub const BENCH_WEAK_DEPS: usize = 2;

/// Seed of the generator that shuffles the chase buffers.
pub const CHASE_SEED: u64 = 0xdeadbeef_cafebabe;

/// Multiplier of the linear congruential generator.
pub const LCG_MULTIPLIER: u64 = 6364136223846793005;

/// Increment of the linear congruential generator.
pub const LCG_INCREMENT: u64 = 1442695040888963407;

/// One step of the generator: multiply and add, both wrapping at 2^64.
pub open spec fn lcg_next(x: u64) -> u64 {
    vstd::wrapping::u64_specs::wrapping_add(
        vstd::wrapping::u64_specs::wrapping_mul(x, LCG_MULTIPLIER),
        LCG_INCREMENT,
    )
}

/// Generator state after `t` steps from the seed.
pub open spec fn lcg_state(t: nat) -> u64
    decreases t,
{
    if t == 0 {
        CHASE_SEED
    } else {
        lcg_next(lcg_state((t - 1) as nat))
    }
}

/// The identity arrangement of `n` buffer slots.
pub open spec fn identity(n: nat) -> Seq<usize> {
    Seq::new(n, |k: int| k as usize)
}

/// Slot `i` swapped with the slot that generator state `rng` picks among
/// slots `0` to `i`.
pub open spec fn shuffle_step(perm: Seq<usize>, i: int, rng: u64) -> Seq<usize> {
    swap(perm, i, pick(rng, i))
}

/// The slot among `0` to `i` that generator state `rng` picks: its upper
/// 31 bits modulo `i + 1`.
pub open spec fn pick(rng: u64, i: int) -> int {
    (((rng >> 33u64) as usize) % ((i + 1) as usize)) as int
}

/// `perm` with slots `i` and `j` exchanged.
pub open spec fn swap(perm: Seq<usize>, i: int, j: int) -> Seq<usize> {
    perm.update(i, perm[j]).update(j, perm[i])
}

/// The picked slot is one of `0` to `i`.
proof fn lemma_pick_bound(rng: u64, i: int)
    requires
        0 <= i < usize::MAX,
    ensures
        0 <= pick(rng, i) <= i,
{
    let x = (rng >> 33u64) as usize;
    let m = (i + 1) as usize;
    assert(m == i + 1);
    assert(x % m < m);
}

/// Exchanging two slots of a permutation leaves a permutation.
proof fn lemma_swap_permutation(p: Seq<usize>, n: nat, i: int, j: int)
    requires
        is_permutation(p, n),
        0 <= i < n,
        0 <= j < n,
    ensures
        is_permutation(swap(p, i, j), n),
{
    let q = swap(p, i, j);
    assert forall|a: int, b: int| 0 <= a < q.len() && 0 <= b < q.len() && a != b implies q[a]
        != q[b] by {
        let src_a = if a == j {
            i
        } else if a == i {
            j
        } else {
            a
        };
        let src_b = if b == j {
            i
        } else if b == i {
            j
        } else {
            b
        };
        assert(q[a] == p[src_a] && q[b] == p[src_b]);
    }
}

/// Arrangement of `n` slots after `t` Fisher-Yates steps, which swap slots
/// `n - 1`, `n - 2`, ... in turn.
pub open spec fn chase_shuffle(n: nat, t: nat) -> Seq<usize>
    decreases t,
{
    if t == 0 {
        identity(n)
    } else {
        shuffle_step(chase_shuffle(n, (t - 1) as nat), n - t, lcg_state(t))
    }
}

/// The chase buffer of `n` slots: the identity shuffled by the Fisher-Yates
/// steps for slots `n - 1` down to `1`.
pub open spec fn shuffled(n: nat) -> Seq<usize> {
    chase_shuffle(n, if n == 0 {
        0
    } else {
        (n - 1) as nat
    })
}

/// `s` holds each of `0` to `n - 1` exactly once.
pub open spec fn is_permutation(s: Seq<usize>, n: nat) -> bool {
    &&& s.len() == n
    &&& forall|k: int| 0 <= k < s.len() ==> #[trigger] s[k] < n
    &&& s.no_duplicates()
}

/// Every arrangement the shuffle passes through is a permutation.
proof fn lemma_chase_shuffle_permutation(n: nat, t: nat)
    requires
        t < n || t == 0,
        n <= usize::MAX,
    ensures
        is_permutation(chase_shuffle(n, t), n),
    decreases t,
{
    if t > 0 {
        lemma_chase_shuffle_permutation(n, (t - 1) as nat);
        let i = n - t;
        let rng = lcg_state(t);
        lemma_pick_bound(rng, i);
        lemma_swap_permutation(chase_shuffle(n, (t - 1) as nat), n, i, pick(rng, i));
    } else {
        assert(identity(n).no_duplicates());
    }
}

/// The chase buffer is a permutation of its slots.
pub proof fn lemma_shuffled_is_permutation(n: nat)
    requires
        n <= usize::MAX,
    ensures
        is_permutation(shuffled(n), n),
{
    lemma_chase_shuffle_permutation(n, if n == 0 {
        0
    } else {
        (n - 1) as nat
    });
}

/// Lays the buffer out as a pointer-chase permutation: the identity,
/// shuffled by Fisher-Yates with a fixed linear congruential generator, so
/// that successive reads follow unpredictable offsets.
pub fn init_chase_buffer(buf: &mut Vec<usize>)
    ensures
        final(buf)@ == shuffled(old(buf)@.len()),
        is_permutation(final(buf)@, old(buf)@.len()),
{
    let n = buf.len();
    for i in 0..n
        invariant
            n == buf@.len(),
            forall|k: int| 0 <= k < i ==> buf@[k] == k,
    {
        buf.set(i, i);
    }
    assert(buf@ =~= identity(n as nat));
    let mut rng: u64 = CHASE_SEED;
    let mut i: usize = n;
    while i > 1
        invariant
            n == buf@.len(),
            n == 0 ==> i == 0,
            n > 0 ==> 1 <= i <= n,
            buf@ == chase_shuffle(n as nat, (n - i) as nat),
            rng == lcg_state((n - i) as nat),
        decreases i,
    {
        i = i - 1;
        rng = rng.wrapping_mul(LCG_MULTIPLIER).wrapping_add(LCG_INCREMENT);
        let j = ((rng >> 33) as usize) % (i + 1);
        let at_i = buf[i];
        let at_j = buf[j];
        buf.set(i, at_j);
        buf.set(j, at_i);
    }
    proof {
        lemma_shuffled_is_permutation(n as nat);
    }
}


/// Allocates `n_regions` chase buffers of `size_bytes` bytes each, as many
/// `usize` slots as fit, each laid out as the chase permutation.
pub fn allocate_buffers(n_regions: usize, size_bytes: usize) -> (r: Vec<Vec<usize>>)
    ensures
        r@.len() == n_regions,
        forall|k: int|
            0 <= k < n_regions ==> (#[trigger] r@[k])@ == shuffled(
                (size_bytes as nat) / vstd::layout::size_of::<usize>(),
            ),
{
    broadcast use vstd::layout::layout_of_primitives;

    let n_elements = size_bytes / core::mem::size_of::<usize>();
    let mut buffers: Vec<Vec<usize>> = Vec::with_capacity(n_regions);
    for k in 0..n_regions
        invariant
            n_elements == (size_bytes as nat) / vstd::layout::size_of::<usize>(),
            buffers@.len() == k,
            forall|j: int| 0 <= j < k ==> (#[trigger] buffers@[j])@ == shuffled(n_elements as nat),
    {
        let mut buf: Vec<usize> = Vec::new();
        for e in 0..n_elements
            invariant
                buf@.len() == e,
        {
            buf.push(0);
        }
        init_chase_buffer(&mut buf);
        buffers.push(buf);
    }
    buffers
}

/// Slot reached after `steps` pointer chases through `buf` from slot 0.
pub open spec fn chase(buf: Seq<usize>, steps: nat) -> usize
    decreases steps,
{
    if steps == 0 {
        0
    } else {
        buf[(chase(buf, (steps - 1) as nat) as int) % (buf.len() as int)]
    }
}

/// XOR of the chase results of the buffers read in `order`, in turn.
pub open spec fn xor_chases(bufs: Seq<Vec<usize>>, order: Seq<int>, n_chases: nat) -> usize
    decreases order.len(),
{
    if order.len() == 0 {
        0
    } else {
        xor_chases(bufs, order.drop_last(), n_chases) ^ chase(bufs[order.last()]@, n_chases)
    }
}

/// Buffers that weakly coupled region `i` reads: its own, then the next
/// `BENCH_WEAK_DEPS`, wrapping around.
pub open spec fn weak_reads(n: nat, i: int) -> Seq<int> {
    Seq::new((BENCH_WEAK_DEPS + 1) as nat, |k: int| (i + k) % (n as int))
}

/// Buffers that each region reads in turn under a workload class, among
/// `n`: its own when independent; its own and the next ones when weakly
/// coupled; every buffer when fully coupled.
pub open spec fn read_order(class: WorkloadClass, n: nat) -> Seq<int> {
    match class {
        WorkloadClass::Independent => region_indices(n as usize),
        WorkloadClass::WeaklyCoupled => weak_read_rows(n).flatten(),
        WorkloadClass::FullyCoupled => full_read_rows(n).flatten(),
    }
}

/// Weakly coupled reads of regions `0` to `n - 1`.
pub open spec fn weak_read_rows(n: nat) -> Seq<Seq<int>> {
    Seq::new(n, |i: int| weak_reads(n, i))
}

/// Fully coupled reads of regions `0` to `n - 1`.
pub open spec fn full_read_rows(n: nat) -> Seq<Seq<int>> {
    Seq::new(n, |i: int| region_indices(n as usize))
}

/// Every buffer can be chased `n_chases` times: none is empty, or no chase
/// is made.
pub open spec fn chasable(bufs: Seq<Vec<usize>>, n_chases: usize) -> bool {
    n_chases > 0 ==> forall|b: int| 0 <= b < bufs.len() ==> (#[trigger] bufs[b])@.len() > 0
}

fn chase_buffer(buf: &Vec<usize>, n_chases: usize) -> (r: usize)
    requires
        n_chases > 0 ==> buf@.len() > 0,
    ensures
        r == chase(buf@, n_chases as nat),
{
    let mut idx: usize = 0;
    for step in 0..n_chases
        invariant
            n_chases > 0 ==> buf@.len() > 0,
            idx == chase(buf@, step as nat),
    {
        idx = buf[idx % buf.len()];
    }
    idx
}

/// One independent pass: each region chases its own buffer; the XOR of the
/// slots reached.
pub fn run_independent(buffers: &[Vec<usize>], n_chases: usize) -> (sink: usize)
    requires
        chasable(buffers@, n_chases),
    ensures
        sink == xor_chases(
            buffers@,
            read_order(WorkloadClass::Independent, buffers@.len()),
            n_chases as nat,
        ),
{
    let ghost order = region_indices(buffers@.len() as usize);
    let mut sink: usize = 0;
    for b in 0..buffers.len()
        invariant
            chasable(buffers@, n_chases),
            order == region_indices(buffers@.len() as usize),
            sink == xor_chases(buffers@, order.take(b as int), n_chases as nat),
    {
        let idx = chase_buffer(&buffers[b], n_chases);
        proof {
            assert(order.take(b + 1).drop_last() =~= order.take(b as int));
        }
        sink = sink ^ idx;
    }
    assert(order.take(buffers@.len() as int) =~= order);
    sink
}

/// One weakly coupled pass: each region chases its own buffer, then the
/// buffers of the next `BENCH_WEAK_DEPS` regions (wrapping around); the XOR
/// of the slots reached.
pub fn run_weakly_coupled(buffers: &[Vec<usize>], n_chases: usize) -> (sink: usize)
    requires
        chasable(buffers@, n_chases),
    ensures
        sink == xor_chases(
            buffers@,
            read_order(WorkloadClass::WeaklyCoupled, buffers@.len()),
            n_chases as nat,
        ),
{
    let n = buffers.len();
    let ghost rows = weak_read_rows(n as nat);
    let mut sink: usize = 0;
    for i in 0..n
        invariant
            n == buffers@.len(),
            chasable(buffers@, n_chases),
            rows == weak_read_rows(n as nat),
            sink == xor_chases(buffers@, rows.take(i as int).flatten(), n_chases as nat),
    {
        let ghost base = rows.take(i as int).flatten();
        let ghost row = weak_reads(n as nat, i as int);
        proof {
            vstd::arithmetic::div_mod::lemma_small_mod(i as nat, n as nat);
            assert((base + row.take(1)).drop_last() =~= base);
        }
        let idx = chase_buffer(&buffers[i], n_chases);
        sink = sink ^ idx;
        for k in 1..BENCH_WEAK_DEPS + 1
            invariant
                n == buffers@.len(),
                i < n,
                chasable(buffers@, n_chases),
                row == weak_reads(n as nat, i as int),
                sink == xor_chases(buffers@, base + row.take(k as int), n_chases as nat),
        {
            // `(i + k) % n`, computed without forming `i + k`.
            let rest = n - i;
            let src = if k < rest {
                i + k
            } else {
                (k - rest) % n
            };
            proof {
                if k < rest {
                    vstd::arithmetic::div_mod::lemma_small_mod((i + k) as nat, n as nat);
                } else {
                    vstd::arithmetic::div_mod::lemma_mod_add_multiples_vanish(
                        (k - rest) as int,
                        n as int,
                    );
                }
                assert(src == (i + k) % (n as int));
            }
            let idx2 = chase_buffer(&buffers[src], n_chases);
            proof {
                assert((base + row.take(k + 1)).drop_last() =~= base + row.take(k as int));
            }
            sink = sink ^ idx2;
        }
        proof {
            assert(row.take((BENCH_WEAK_DEPS + 1) as int) =~= row);
            assert(rows.take(i + 1) =~= rows.take(i as int).push(row));
        }
    }
    assert(rows.take(n as int) =~= rows);
    sink
}

/// One fully coupled pass: each region chases every buffer in turn; the XOR
/// of the slots reached.
pub fn run_fully_coupled(buffers: &[Vec<usize>], n_chases: usize) -> (sink: usize)
    requires
        chasable(buffers@, n_chases),
    ensures
        sink == xor_chases(
            buffers@,
            read_order(WorkloadClass::FullyCoupled, buffers@.len()),
            n_chases as nat,
        ),
{
    let n = buffers.len();
    let ghost rows = full_read_rows(n as nat);
    let ghost row = region_indices(n);
    let mut sink: usize = 0;
    for i in 0..n
        invariant
            n == buffers@.len(),
            chasable(buffers@, n_chases),
            rows == full_read_rows(n as nat),
            row == region_indices(n),
            sink == xor_chases(buffers@, rows.take(i as int).flatten(), n_chases as nat),
    {
        let ghost base = rows.take(i as int).flatten();
        for j in 0..n
            invariant
                n == buffers@.len(),
                chasable(buffers@, n_chases),
                row == region_indices(n),
                sink == xor_chases(buffers@, base + row.take(j as int), n_chases as nat),
        {
            let idx = chase_buffer(&buffers[j], n_chases);
            proof {
                assert((base + row.take(j + 1)).drop_last() =~= base + row.take(j as int));
            }
            sink = sink ^ idx;
        }
        proof {
            assert(row.take(n as int) =~= row);
            assert(rows.take(i + 1) =~= rows.take(i as int).push(row));
        }
    }
    assert(rows.take(n as int) =~= rows);
    sink
}

/// Buffer indices `k` to `k + len - 1`, each taken modulo `n`.
pub open spec fn shifted_indices(n: nat, k: int, len: nat) -> Seq<int> {
    Seq::new(len, |j: int| (j + k) % (n as int))
}

/// XOR over a concatenation of read orders is the XOR of the two parts.
proof fn lemma_xor_concat(bufs: Seq<Vec<usize>>, a: Seq<int>, b: Seq<int>, c: nat)
    ensures
        xor_chases(bufs, a + b, c) == xor_chases(bufs, a, c) ^ xor_chases(bufs, b, c),
    decreases b.len(),
{
    let x = xor_chases(bufs, a, c);
    if b.len() == 0 {
        assert(a + b =~= a);
        assert(x ^ 0usize == x) by (bit_vector);
    } else {
        assert((a + b).drop_last() =~= a + b.drop_last());
        assert((a + b).last() == b.last());
        lemma_xor_concat(bufs, a, b.drop_last(), c);
        let y = xor_chases(bufs, b.drop_last(), c);
        let v = chase(bufs[b.last()]@, c);
        assert((x ^ y) ^ v == x ^ (y ^ v)) by (bit_vector);
    }
}

/// Reading every buffer once, in any rotation of the index order, gives the
/// XOR of reading them in index order.
proof fn lemma_xor_rotation(bufs: Seq<Vec<usize>>, n: nat, k: int, c: nat)
    requires
        1 <= n <= usize::MAX,
        k >= 0,
    ensures
        xor_chases(bufs, shifted_indices(n, k, n), c) == xor_chases(
            bufs,
            region_indices(n as usize),
            c,
        ),
{
    let ni = n as int;
    let m = k % ni;
    vstd::arithmetic::div_mod::lemma_mod_pos_bound(k, ni);
    let id = region_indices(n as usize);
    let low = id.subrange(0, m);
    let high = id.subrange(m, ni);
    let s = shifted_indices(n, k, n);
    assert forall|j: int| 0 <= j < ni implies #[trigger] s[j] == (high + low)[j] by {
        vstd::arithmetic::div_mod::lemma_add_mod_noop(j, k, ni);
        vstd::arithmetic::div_mod::lemma_small_mod(j as nat, n);
        if j + m < ni {
            vstd::arithmetic::div_mod::lemma_small_mod((j + m) as nat, n);
        } else {
            vstd::arithmetic::div_mod::lemma_mod_add_multiples_vanish(j + m - ni, ni);
            vstd::arithmetic::div_mod::lemma_small_mod((j + m - ni) as nat, n);
        }
    }
    assert(s =~= high + low);
    assert(id =~= low + high);
    lemma_xor_concat(bufs, high, low, c);
    lemma_xor_concat(bufs, low, high, c);
    let x = xor_chases(bufs, low, c);
    let y = xor_chases(bufs, high, c);
    assert(y ^ x == x ^ y) by (bit_vector);
}

/// The weakly coupled reads of the first `i` regions XOR to the three
/// shifted index runs of length `i`, XORed together.
proof fn lemma_weak_prefix(bufs: Seq<Vec<usize>>, n: nat, i: nat, c: nat)
    requires
        1 <= n,
        i <= n,
    ensures
        xor_chases(bufs, weak_read_rows(n).take(i as int).flatten(), c) == (xor_chases(
            bufs,
            shifted_indices(n, 0, i),
            c,
        ) ^ xor_chases(bufs, shifted_indices(n, 1, i), c)) ^ xor_chases(
            bufs,
            shifted_indices(n, 2, i),
            c,
        ),
    decreases i,
{
    let rows = weak_read_rows(n);
    if i == 0 {
        assert(rows.take(0) =~= Seq::<Seq<int>>::empty());
        assert(shifted_indices(n, 0, 0) =~= Seq::<int>::empty());
        assert(shifted_indices(n, 1, 0) =~= Seq::<int>::empty());
        assert(shifted_indices(n, 2, 0) =~= Seq::<int>::empty());
        assert((0usize ^ 0usize) ^ 0usize == 0usize) by (bit_vector);
    } else {
        let p = (i - 1) as nat;
        lemma_weak_prefix(bufs, n, p, c);
        let row = rows[p as int];
        assert(rows.take(i as int) =~= rows.take(p as int).push(row));
        lemma_xor_concat(bufs, rows.take(p as int).flatten(), row, c);
        let ni = n as int;
        let v0 = chase(bufs[(p as int + 0) % ni]@, c);
        let v1 = chase(bufs[(p as int + 1) % ni]@, c);
        let v2 = chase(bufs[(p as int + 2) % ni]@, c);
        let r1 = row.drop_last();
        let r2 = r1.drop_last();
        let r3 = r2.drop_last();
        assert(row.len() == 3 && row[0] == (p as int + 0) % ni && row[1] == (p as int + 1) % ni
            && row[2] == (p as int + 2) % ni);
        assert(r3 =~= Seq::<int>::empty());
        assert(xor_chases(bufs, r3, c) == 0usize);
        assert(r2.last() == row[0]);
        assert(xor_chases(bufs, r2, c) == 0usize ^ v0);
        assert(r1.last() == row[1]);
        assert(xor_chases(bufs, r1, c) == (0usize ^ v0) ^ v1);
        assert(row.last() == row[2]);
        assert(xor_chases(bufs, row, c) == ((0usize ^ v0) ^ v1) ^ v2);
        assert(shifted_indices(n, 0, i).drop_last() =~= shifted_indices(n, 0, p));
        assert(shifted_indices(n, 1, i).drop_last() =~= shifted_indices(n, 1, p));
        assert(shifted_indices(n, 2, i).drop_last() =~= shifted_indices(n, 2, p));
        let a = xor_chases(bufs, shifted_indices(n, 0, p), c);
        let b = xor_chases(bufs, shifted_indices(n, 1, p), c);
        let d = xor_chases(bufs, shifted_indices(n, 2, p), c);
        assert(((a ^ b) ^ d) ^ (((0usize ^ v0) ^ v1) ^ v2) == ((a ^ v0) ^ (b ^ v1)) ^ (d ^ v2))
            by (bit_vector);
    }
}

/// The weakly coupled pass returns what the independent pass returns: with
/// dependencies taken modulo the region count, every buffer is chased
/// `1 + BENCH_WEAK_DEPS` times, three, and XORing a value three times
/// leaves the value.
pub proof fn lemma_weakly_coupled_matches_independent(bufs: Seq<Vec<usize>>, n_chases: nat)
    requires
        bufs.len() <= usize::MAX,
    ensures
        xor_chases(bufs, read_order(WorkloadClass::WeaklyCoupled, bufs.len()), n_chases)
            == xor_chases(bufs, read_order(WorkloadClass::Independent, bufs.len()), n_chases),
{
    let n = bufs.len();
    if n == 0 {
        assert(weak_read_rows(0) =~= Seq::<Seq<int>>::empty());
        assert(region_indices(0) =~= Seq::<int>::empty());
    } else {
        lemma_weak_prefix(bufs, n, n, n_chases);
        assert(weak_read_rows(n).take(n as int) =~= weak_read_rows(n));
        lemma_xor_rotation(bufs, n, 0, n_chases);
        lemma_xor_rotation(bufs, n, 1, n_chases);
        lemma_xor_rotation(bufs, n, 2, n_chases);
        let x = xor_chases(bufs, region_indices(n as usize), n_chases);
        assert((x ^ x) ^ x == x) by (bit_vector);
    }
}

/// The fully coupled reads of the first `i` regions XOR to nothing when `i`
/// is even and to one independent pass when it is odd.
proof fn lemma_full_prefix(bufs: Seq<Vec<usize>>, n: nat, i: nat, c: nat)
    requires
        i <= n,
    ensures
        xor_chases(bufs, full_read_rows(n).take(i as int).flatten(), c) == if i % 2 == 0 {
            0usize
        } else {
            xor_chases(bufs, region_indices(n as usize), c)
        },
    decreases i,
{
    let rows = full_read_rows(n);
    if i == 0 {
        assert(rows.take(0) =~= Seq::<Seq<int>>::empty());
    } else {
        let p = (i - 1) as nat;
        lemma_full_prefix(bufs, n, p, c);
        let row = rows[p as int];
        assert(rows.take(i as int) =~= rows.take(p as int).push(row));
        lemma_xor_concat(bufs, rows.take(p as int).flatten(), row, c);
        let x = xor_chases(bufs, region_indices(n as usize), c);
        assert(0usize ^ x == x) by (bit_vector);
        assert(x ^ x == 0usize) by (bit_vector);
    }
}

/// The fully coupled pass chases every buffer once per region, so its XOR
/// cancels to zero for an even number of regions and is the independent
/// pass's result for an odd number.
pub proof fn lemma_fully_coupled_cancels(bufs: Seq<Vec<usize>>, n_chases: nat)
    requires
        bufs.len() <= usize::MAX,
    ensures
        xor_chases(bufs, read_order(WorkloadClass::FullyCoupled, bufs.len()), n_chases) == if bufs.len()
            % 2 == 0 {
            0usize
        } else {
            xor_chases(bufs, read_order(WorkloadClass::Independent, bufs.len()), n_chases)
        },
{
    let n = bufs.len();
    lemma_full_prefix(bufs, n, n, n_chases);
    assert(full_read_rows(n).take(n as int) =~= full_read_rows(n));
}

/// Buffer reads of one pass of a workload class over the benchmark's
/// regions: one per region when independent, `1 + BENCH_WEAK_DEPS` per
/// region when weakly coupled, one per region pair when fully coupled. It is
/// the number of buffers that the pass of that class chases.
pub fn buffer_reads_per_pass(class: WorkloadClass) -> (r: usize)
    ensures
        r == read_order(class, BENCH_REGIONS as nat).len(),
{
    proof {
        let n = BENCH_REGIONS as nat;
        assert forall|r: int| 0 <= r < weak_read_rows(n).len() implies (#[trigger] weak_read_rows(
            n,
        )[r]).len() == BENCH_WEAK_DEPS + 1 by {}
        lemma_flatten_uniform_len(weak_read_rows(n), (BENCH_WEAK_DEPS + 1) as int);
        assert forall|r: int| 0 <= r < full_read_rows(n).len() implies (#[trigger] full_read_rows(
            n,
        )[r]).len() == n by {}
        lemma_flatten_uniform_len(full_read_rows(n), n as int);
    }
    match class {
        WorkloadClass::Independent => BENCH_REGIONS,
        WorkloadClass::WeaklyCoupled => BENCH_REGIONS * (1 + BENCH_WEAK_DEPS),
        WorkloadClass::FullyCoupled => BENCH_REGIONS * BENCH_REGIONS,
    }
}

} // verus!
