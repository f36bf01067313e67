use abr_infinity_fabric::dependency_bench::{
    allocate_buffers, buffer_reads_per_pass, init_chase_buffer, run_fully_coupled,
    run_independent, run_weakly_coupled, BENCH_REGIONS, BENCH_WEAK_DEPS,
};
use abr_infinity_fabric::fabric_sim::WorkloadClass;

#[test]
fn chase_buffer_is_permutation() {
    let mut buf = vec![7usize; 1000];
    init_chase_buffer(&mut buf);
    let mut seen = vec![false; 1000];
    for &v in &buf {
        assert!(v < 1000);
        assert!(!seen[v]);
        seen[v] = true;
    }
    let moved = buf.iter().enumerate().filter(|(i, v)| *i != **v).count();
    assert!(moved > 900, "shuffle must move most slots");
}

#[test]
fn chase_buffer_is_deterministic() {
    let mut a = vec![0usize; 64];
    let mut b = vec![5usize; 64];
    init_chase_buffer(&mut a);
    init_chase_buffer(&mut b);
    assert_eq!(a, b);
    let mut one = vec![3usize; 1];
    init_chase_buffer(&mut one);
    assert_eq!(one, vec![0]);
}

#[test]
fn buffers_sized_by_word_count() {
    let buffers = allocate_buffers(3, 100);
    assert_eq!(buffers.len(), 3);
    let words = 100 / std::mem::size_of::<usize>();
    for b in &buffers {
        assert_eq!(b.len(), words);
    }
    assert_eq!(buffers[0], buffers[2]);
}

fn chase(buf: &[usize], n: usize) -> usize {
    let mut idx = 0;
    for _ in 0..n {
        idx = buf[idx % buf.len()];
    }
    idx
}

#[test]
fn kernels_xor_their_chases() {
    let buffers = vec![vec![1, 2, 0], vec![2, 0, 1, 3], vec![0, 1], vec![3, 1, 2, 0]];
    let c: Vec<usize> = buffers.iter().map(|b| chase(b, 5)).collect();
    assert_eq!(run_independent(&buffers, 5), c[0] ^ c[1] ^ c[2] ^ c[3]);
    let mut weak = 0;
    for i in 0..4 {
        for k in 0..=BENCH_WEAK_DEPS {
            weak ^= c[(i + k) % 4];
        }
    }
    assert_eq!(run_weakly_coupled(&buffers, 5), weak);
    // every buffer is read four times: the XOR cancels
    assert_eq!(run_fully_coupled(&buffers, 5), 0);
}

#[test]
fn no_chases_reach_slot_zero() {
    let buffers = allocate_buffers(2, 64);
    assert_eq!(run_independent(&buffers, 0), 0);
}

#[test]
fn buffer_reads_per_class() {
    assert_eq!(buffer_reads_per_pass(WorkloadClass::Independent), BENCH_REGIONS);
    assert_eq!(buffer_reads_per_pass(WorkloadClass::WeaklyCoupled), 24);
    assert_eq!(buffer_reads_per_pass(WorkloadClass::FullyCoupled), 64);
}

#[test]
fn weakly_coupled_pass_matches_independent_pass() {
    for n in 1..=5 {
        let buffers: Vec<Vec<usize>> = (0..n).map(|k| (0..k + 2).rev().collect()).collect();
        for chases in [0usize, 1, 3, 7] {
            assert_eq!(run_weakly_coupled(&buffers, chases), run_independent(&buffers, chases));
        }
    }
    let buffers = allocate_buffers(BENCH_REGIONS, 256);
    assert_eq!(run_weakly_coupled(&buffers, 32), run_independent(&buffers, 32));
}

#[test]
fn fully_coupled_pass_cancels_for_even_region_counts() {
    for n in 1..=6 {
        let buffers: Vec<Vec<usize>> = (0..n).map(|k| (0..k + 3).rev().collect()).collect();
        let expected = if n % 2 == 0 { 0 } else { run_independent(&buffers, 5) };
        assert_eq!(run_fully_coupled(&buffers, 5), expected);
    }
    let buffers = allocate_buffers(BENCH_REGIONS, 256);
    assert_eq!(run_fully_coupled(&buffers, 32), 0);
}
