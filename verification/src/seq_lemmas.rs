//! Facts about filtering and flattening sequences.
use vstd::prelude::*;

verus! {

broadcast use Seq::lemma_flatten_push;

/// Filtering the first `i + 1` items extends the filtered first `i` items by
/// item `i` exactly when it satisfies the predicate.
pub proof fn lemma_filter_take_step<A>(s: Seq<A>, pred: spec_fn(A) -> bool, i: int)
    requires
        0 <= i < s.len(),
    ensures
        s.take(i + 1).filter(pred) == (if pred(s[i]) {
            s.take(i).filter(pred).push(s[i])
        } else {
            s.take(i).filter(pred)
        }),
{
    reveal_with_fuel(Seq::<_>::filter, 1);
    assert(s.take(i + 1).drop_last() =~= s.take(i));
}

/// Filtering a sequence extended by one item extends the filtered sequence by
/// that item exactly when it satisfies the predicate.
pub proof fn lemma_filter_push<A>(s: Seq<A>, x: A, pred: spec_fn(A) -> bool)
    ensures
        s.push(x).filter(pred) == (if pred(x) {
            s.filter(pred).push(x)
        } else {
            s.filter(pred)
        }),
{
    reveal_with_fuel(Seq::<_>::filter, 1);
    assert(s.push(x).drop_last() =~= s);
}

/// Every item that a filter keeps is an item of the filtered sequence.
pub proof fn lemma_filter_subset<A>(s: Seq<A>, pred: spec_fn(A) -> bool, i: int)
    requires
        0 <= i < s.filter(pred).len(),
    ensures
        s.contains(s.filter(pred)[i]),
    decreases s.len(),
{
    reveal_with_fuel(Seq::<_>::filter, 1);
    if s.len() > 0 {
        let init = s.drop_last();
        if i < init.filter(pred).len() {
            lemma_filter_subset(init, pred, i);
            let j = choose|j: int| 0 <= j < init.len() && init[j] == init.filter(pred)[i];
            assert(s[j] == init[j]);
        } else {
            assert(s[s.len() - 1] == s.filter(pred)[i]);
        }
    }
}

/// Flattening rows that all have length `len` gives `rows.len() * len` items.
pub proof fn lemma_flatten_uniform_len<A>(rows: Seq<Seq<A>>, len: int)
    requires
        forall|r: int| 0 <= r < rows.len() ==> (#[trigger] rows[r]).len() == len,
    ensures
        rows.flatten().len() == rows.len() * len,
    decreases rows.len(),
{
    if rows.len() > 0 {
        let init = rows.drop_last();
        assert(rows =~= init.push(rows.last()));
        assert forall|r: int| 0 <= r < init.len() implies (#[trigger] init[r]).len() == len by {
            assert(init[r] == rows[r]);
        }
        lemma_flatten_uniform_len(init, len);
        assert(rows.len() * len == init.len() * len + len) by (nonlinear_arith)
            requires
                rows.len() == init.len() + 1,
        ;
    }
}

/// Every item of a flattened sequence of rows is an item of one of the rows.
pub proof fn lemma_flatten_item<A>(rows: Seq<Seq<A>>, p: int)
    requires
        0 <= p < rows.flatten().len(),
    ensures
        exists|r: int, q: int|
            0 <= r < rows.len() && 0 <= q < rows[r].len() && #[trigger] rows[r][q]
                == rows.flatten()[p],
    decreases rows.len(),
{
    if rows.len() > 0 {
        let init = rows.drop_last();
        assert(rows =~= init.push(rows.last()));
        assert(rows.flatten() =~= init.flatten() + rows.last());
        if p < init.flatten().len() {
            lemma_flatten_item(init, p);
            let (r, q) = choose|r: int, q: int|
                0 <= r < init.len() && 0 <= q < init[r].len() && #[trigger] init[r][q]
                    == init.flatten()[p];
            assert(rows[r] == init[r]);
        } else {
            let q = p - init.flatten().len();
            assert(rows[rows.len() - 1][q] == rows.flatten()[p]);
        }
    }
}


/// Each item of each row appears in the flattened rows.
pub proof fn lemma_flatten_contains<A>(rows: Seq<Seq<A>>, r: int, q: int)
    requires
        0 <= r < rows.len(),
        0 <= q < rows[r].len(),
    ensures
        rows.flatten().contains(rows[r][q]),
    decreases rows.len(),
{
    let init = rows.drop_last();
    assert(rows =~= init.push(rows.last()));
    assert(rows.flatten() =~= init.flatten() + rows.last());
    if r < init.len() {
        assert(init[r] == rows[r]);
        lemma_flatten_contains(init, r, q);
        let p = choose|p: int| 0 <= p < init.flatten().len() && init.flatten()[p] == rows[r][q];
        assert(rows.flatten()[p] == rows[r][q]);
    } else {
        assert(rows.flatten()[init.flatten().len() + q] == rows[r][q]);
    }
}

/// Filtering keeps a sequence free of duplicates.
pub proof fn lemma_filter_no_duplicates<A>(s: Seq<A>, pred: spec_fn(A) -> bool)
    requires
        s.no_duplicates(),
    ensures
        s.filter(pred).no_duplicates(),
    decreases s.len(),
{
    if s.len() > 0 {
        let init = s.drop_last();
        let x = s.last();
        assert(s =~= init.push(x));
        assert(init.no_duplicates()) by {
            assert forall|i: int, j: int|
                0 <= i < init.len() && 0 <= j < init.len() && i != j implies init[i]
                != init[j] by {
                assert(init[i] == s[i] && init[j] == s[j]);
            }
        }
        lemma_filter_no_duplicates(init, pred);
        lemma_filter_push(init, x, pred);
        if pred(x) {
            let f = init.filter(pred);
            assert forall|i: int| 0 <= i < f.len() implies f[i] != x by {
                lemma_filter_subset(init, pred, i);
                let j = choose|j: int| 0 <= j < init.len() && init[j] == f[i];
                assert(s[j] == init[j] && s[s.len() - 1] == x);
            }
            assert forall|i: int, j: int|
                0 <= i < f.push(x).len() && 0 <= j < f.push(x).len() && i != j implies f.push(
                x,
            )[i] != f.push(x)[j] by {
                if i == f.len() {
                    assert(f.push(x)[j] == f[j]);
                } else if j == f.len() {
                    assert(f.push(x)[i] == f[i]);
                } else {
                    assert(f.push(x)[i] == f[i] && f.push(x)[j] == f[j]);
                }
            }
        }
    }
}

/// Rows free of duplicates, no two of which share an item, flatten to a
/// sequence free of duplicates.
pub proof fn lemma_flatten_no_duplicates<A>(rows: Seq<Seq<A>>)
    requires
        forall|r: int| 0 <= r < rows.len() ==> (#[trigger] rows[r]).no_duplicates(),
        forall|r1: int, r2: int, q1: int, q2: int|
            0 <= r1 < rows.len() && 0 <= r2 < rows.len() && r1 != r2 && 0 <= q1 < rows[r1].len()
                && 0 <= q2 < rows[r2].len() ==> #[trigger] rows[r1][q1] != #[trigger] rows[r2][q2],
    ensures
        rows.flatten().no_duplicates(),
    decreases rows.len(),
{
    if rows.len() > 0 {
        let init = rows.drop_last();
        let last = rows.last();
        assert(rows =~= init.push(last));
        let fi = init.flatten();
        assert(rows.flatten() =~= fi + last);
        assert forall|r: int| 0 <= r < init.len() implies (#[trigger] init[r]).no_duplicates() by {
            assert(init[r] == rows[r]);
        }
        assert forall|r1: int, r2: int, q1: int, q2: int|
            0 <= r1 < init.len() && 0 <= r2 < init.len() && r1 != r2 && 0 <= q1 < init[r1].len()
                && 0 <= q2 < init[r2].len() implies #[trigger] init[r1][q1]
            != #[trigger] init[r2][q2] by {
            assert(init[r1] == rows[r1] && init[r2] == rows[r2]);
        }
        lemma_flatten_no_duplicates(init);
        assert(rows[rows.len() - 1] == last);
        assert forall|p: int, q: int| 0 <= p < fi.len() && 0 <= q < last.len() implies fi[p]
            != last[q] by {
            lemma_flatten_item(init, p);
            let (r, q1) = choose|r: int, q1: int|
                0 <= r < init.len() && 0 <= q1 < init[r].len() && #[trigger] init[r][q1]
                    == fi[p];
            assert(init[r] == rows[r]);
            assert(rows[r][q1] != rows[rows.len() - 1][q]);
        }
        let all = fi + last;
        assert forall|i: int, j: int|
            0 <= i < all.len() && 0 <= j < all.len() && i != j implies all[i] != all[j] by {
            if i < fi.len() && j < fi.len() {
            } else if i >= fi.len() && j >= fi.len() {
                assert(all[i] == last[i - fi.len()] && all[j] == last[j - fi.len()]);
            } else if i < fi.len() {
                assert(all[j] == last[j - fi.len()]);
            } else {
                assert(all[i] == last[i - fi.len()]);
            }
        }
    }
}

} // verus!
