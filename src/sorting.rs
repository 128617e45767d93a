//! In-place quicksort with an explicit stack of pending ranges and a
//! median-of-three pivot.

use vstd::prelude::*;

verus! {

broadcast use vstd::seq_lib::group_to_multiset_ensures;

/// `s` with the elements at `i` and `j` exchanged.
pub open spec fn swapped(s: Seq<i32>, i: int, j: int) -> Seq<i32> {
    s.update(i, s[j]).update(j, s[i])
}

/// Ascending order.
pub open spec fn is_sorted(s: Seq<i32>) -> bool {
    forall|i: int, j: int| 0 <= i < j < s.len() ==> s[i] <= s[j]
}

/// `a` and `b` agree outside `[lo, hi)` and hold the same values inside it.
pub open spec fn permuted_within(a: Seq<i32>, b: Seq<i32>, lo: int, hi: int) -> bool {
    &&& a.len() == b.len()
    &&& 0 <= lo <= hi <= a.len()
    &&& forall|k: int| 0 <= k < a.len() && !(lo <= k < hi) ==> a[k] == b[k]
    &&& a.subrange(lo, hi).to_multiset() == b.subrange(lo, hi).to_multiset()
    &&& a.to_multiset() == b.to_multiset()
}

proof fn lemma_swap_multiset(s: Seq<i32>, i: int, j: int)
    requires
        0 <= i < s.len(),
        0 <= j < s.len(),
    ensures
        swapped(s, i, j).to_multiset() == s.to_multiset(),
{
    broadcast use vstd::multiset::group_multiset_axioms;
    broadcast use vstd::seq_lib::to_multiset_update;

    let t = s.update(i, s[j]);
    assert(t.to_multiset() == s.to_multiset().insert(s[j]).remove(s[i]));
    assert(swapped(s, i, j).to_multiset() == t.to_multiset().insert(s[i]).remove(t[j]));
    assert(swapped(s, i, j).to_multiset() =~= s.to_multiset());
}

proof fn lemma_permuted_trans(a: Seq<i32>, b: Seq<i32>, c: Seq<i32>, lo: int, hi: int)
    requires
        permuted_within(a, b, lo, hi),
        permuted_within(b, c, lo, hi),
    ensures
        permuted_within(a, c, lo, hi),
{
}

proof fn lemma_swap_within(s: Seq<i32>, i: int, j: int, lo: int, hi: int)
    requires
        0 <= lo <= i < hi <= s.len(),
        lo <= j < hi,
    ensures
        permuted_within(s, swapped(s, i, j), lo, hi),
{
    lemma_swap_multiset(s, i, j);
    assert(swapped(s, i, j).subrange(lo, hi) =~= swapped(s.subrange(lo, hi), i - lo, j - lo));
    lemma_swap_multiset(s.subrange(lo, hi), i - lo, j - lo);
}

/// Exchanges two elements.
fn swap(arr: &mut Vec<i32>, i: usize, j: usize)
    requires
        i < old(arr)@.len(),
        j < old(arr)@.len(),
    ensures
        final(arr)@ == swapped(old(arr)@, i as int, j as int),
{
    let a = arr[i];
    let b = arr[j];
    arr.set(i, b);
    arr.set(j, a);
}

/// Exchanges two elements of `arr[lo..hi]`, keeping the range a permutation of `start`'s.
fn swap_in_range(
    arr: &mut Vec<i32>,
    i: usize,
    j: usize,
    lo: usize,
    hi: usize,
    Ghost(start): Ghost<Seq<i32>>,
)
    requires
        lo <= i < hi,
        lo <= j < hi,
        permuted_within(start, old(arr)@, lo as int, hi as int),
    ensures
        final(arr)@ == swapped(old(arr)@, i as int, j as int),
        permuted_within(start, final(arr)@, lo as int, hi as int),
{
    let ghost before = arr@;
    swap(arr, i, j);
    proof {
        lemma_swap_within(before, i as int, j as int, lo as int, hi as int);
        lemma_permuted_trans(start, before, arr@, lo as int, hi as int);
    }
}

/// Orders the first, middle and last element of `arr[lo..hi]`, then moves the
/// median of the three to the end of the range, where it serves as the pivot.
fn median_of_three(arr: &mut Vec<i32>, lo: usize, hi: usize)
    requires
        lo + 3 <= hi <= old(arr)@.len(),
    ensures
        permuted_within(old(arr)@, final(arr)@, lo as int, hi as int),
{
    let ghost start = arr@;
    let len = hi - lo;
    let mid = lo + len / 2;
    let last = hi - 1;
    proof {
        lemma_permuted_refl(start, lo as int, hi as int);
    }
    if arr[lo] > arr[mid] {
        swap_in_range(arr, lo, mid, lo, hi, Ghost(start));
    }
    if arr[mid] > arr[last] {
        swap_in_range(arr, mid, last, lo, hi, Ghost(start));
    }
    if arr[lo] > arr[mid] {
        swap_in_range(arr, lo, mid, lo, hi, Ghost(start));
    }
    swap_in_range(arr, mid, last, lo, hi, Ghost(start));
}

proof fn lemma_permuted_refl(a: Seq<i32>, lo: int, hi: int)
    requires
        0 <= lo <= hi <= a.len(),
    ensures
        permuted_within(a, a, lo, hi),
{
}

/// Partitions `arr[lo..hi]` around a median-of-three pivot and returns the
/// pivot's final index: smaller or equal values before it, larger after.
fn partition(arr: &mut Vec<i32>, lo: usize, hi: usize) -> (p: usize)
    requires
        lo + 2 <= hi <= old(arr)@.len(),
    ensures
        lo <= p < hi,
        permuted_within(old(arr)@, final(arr)@, lo as int, hi as int),
        forall|k: int| lo <= k < p ==> final(arr)@[k] <= final(arr)@[p as int],
        forall|k: int| p < k < hi ==> final(arr)@[p as int] <= final(arr)@[k],
{
    let ghost start = arr@;
    if hi - lo >= 3 {
        median_of_three(arr, lo, hi);
    } else {
        proof {
            lemma_permuted_refl(start, lo as int, hi as int);
        }
    }
    let last = hi - 1;
    let pivot = arr[last];
    let mut i = lo;
    let mut j = lo;
    while j < last
        invariant
            lo <= i <= j <= last,
            last == hi - 1,
            hi <= arr@.len(),
            arr@[last as int] == pivot,
            permuted_within(start, arr@, lo as int, hi as int),
            forall|k: int| lo <= k < i ==> arr@[k] <= pivot,
            forall|k: int| i <= k < j ==> arr@[k] > pivot,
        decreases last - j,
    {
        if arr[j] <= pivot {
            swap_in_range(arr, i, j, lo, hi, Ghost(start));
            i += 1;
        }
        j += 1;
    }
    swap_in_range(arr, i, last, lo, hi, Ghost(start));
    i
}

/// No two positions `i < j` are out of order unless both lie in one range
/// that is still pending on the stack.
pub open spec fn sorted_outside(a: Seq<i32>, stack: Seq<(usize, usize)>) -> bool {
    forall|i: int, j: int|
        0 <= i < j < a.len() ==> a[i] <= a[j] || exists|t: int|
            0 <= t < stack.len() && #[trigger] stack[t].0 <= i && j < stack[t].1
}

/// The pending ranges lie inside `[0, n)` and do not overlap.
pub open spec fn ranges_ok(stack: Seq<(usize, usize)>, n: int) -> bool {
    &&& forall|t: int| 0 <= t < stack.len() ==> #[trigger] stack[t].0 <= stack[t].1 <= n
    &&& forall|t: int, u: int|
        0 <= t < stack.len() && 0 <= u < stack.len() && t != u ==> #[trigger] stack[t].1
            <= #[trigger] stack[u].0 || stack[u].1 <= stack[t].0
}

/// Total length of the pending ranges.
pub open spec fn pending(stack: Seq<(usize, usize)>) -> nat
    decreases stack.len(),
{
    if stack.len() == 0 {
        0
    } else {
        pending(stack.drop_last()) + (stack.last().1 - stack.last().0) as nat
    }
}

/// A value below every element of a range stays below it when the range is permuted.
proof fn lemma_bound_moves(a: Seq<i32>, b: Seq<i32>, lo: int, hi: int, k: int)
    requires
        permuted_within(a, b, lo, hi),
        lo <= k < hi,
    ensures
        exists|m: int| lo <= m < hi && a[m] == b[k],
{
    let sa = a.subrange(lo, hi);
    let sb = b.subrange(lo, hi);
    assert(sb[k - lo] == b[k]);
    assert(sb.contains(b[k]));
    assert(sa.to_multiset().count(b[k]) > 0);
    assert(sa.contains(b[k]));
    let m = choose|m: int| 0 <= m < sa.len() && sa[m] == b[k];
    assert(a[lo + m] == b[k]);
}

/// Sorts `arr` in ascending order.
pub fn quicksort(arr: &mut Vec<i32>)
    ensures
        is_sorted(final(arr)@),
        final(arr)@.to_multiset() == old(arr)@.to_multiset(),
{
    let ghost start = arr@;
    let n = arr.len();
    let mut stack: Vec<(usize, usize)> = Vec::new();
    stack.push((0, n));
    assert(sorted_outside(arr@, stack@)) by {
        assert forall|i: int, j: int| 0 <= i < j < arr@.len() implies arr@[i] <= arr@[j]
            || exists|t: int| 0 <= t < stack@.len() && #[trigger] stack@[t].0 <= i && j
            < stack@[t].1 by {
            assert(stack@[0].0 <= i && j < stack@[0].1);
        }
    }
    while stack.len() > 0
        invariant
            arr@.len() == n,
            arr@.to_multiset() == start.to_multiset(),
            ranges_ok(stack@, n as int),
            sorted_outside(arr@, stack@),
        decreases pending(stack@), stack@.len(),
    {
        let ghost old_stack = stack@;
        let ghost old_arr = arr@;
        let (lo, hi) = stack.pop().unwrap();
        proof {
            assert(old_stack.drop_last() == stack@);
            assert(old_stack.last() == (lo, hi));
            assert(lo <= hi <= n);
        }
        if hi - lo <= 1 {
            proof {
                assert forall|i: int, j: int| 0 <= i < j < arr@.len() implies arr@[i] <= arr@[j]
                    || exists|t: int| 0 <= t < stack@.len() && #[trigger] stack@[t].0 <= i && j
                    < stack@[t].1 by {
                    if !(arr@[i] <= arr@[j]) {
                        let t = choose|t: int|
                            0 <= t < old_stack.len() && #[trigger] old_stack[t].0 <= i && j
                                < old_stack[t].1;
                        assert(t != old_stack.len() - 1);
                        assert(stack@[t] == old_stack[t]);
                    }
                }
            }
            continue;
        }
        let p = partition(arr, lo, hi);
        let ghost mid_stack = stack@;
        stack.push((lo, p));
        stack.push((p + 1, hi));
        proof {
            let a = old_arr;
            let b = arr@;
            let ns = stack@;
            assert(ns.drop_last().drop_last() == mid_stack);
            assert(ns[ns.len() - 2] == (lo, p));
            assert(ns[ns.len() - 1] == ((p + 1) as usize, hi));
            assert forall|t: int| 0 <= t < mid_stack.len() implies ns[t] == old_stack[t] by {}
            assert(ranges_ok(ns, n as int)) by {
                assert forall|t: int, u: int|
                    0 <= t < ns.len() && 0 <= u < ns.len() && t != u implies #[trigger] ns[t].1
                    <= #[trigger] ns[u].0 || ns[u].1 <= ns[t].0 by {
                    if t < mid_stack.len() && u < mid_stack.len() {
                    } else if t < mid_stack.len() {
                        assert(old_stack[t].1 <= lo || hi <= old_stack[t].0);
                    } else if u < mid_stack.len() {
                        assert(old_stack[u].1 <= lo || hi <= old_stack[u].0);
                    }
                }
            }
            assert(pending(ns.drop_last()) == pending(mid_stack) + (p - lo));
            assert(pending(old_stack) == pending(mid_stack) + (hi - lo));
            assert forall|i: int, j: int| 0 <= i < j < b.len() implies b[i] <= b[j] || exists|
                t: int,
            | 0 <= t < ns.len() && #[trigger] ns[t].0 <= i && j < ns[t].1 by {
                let in_i = lo <= i < hi;
                let in_j = lo <= j < hi;
                if in_i && in_j {
                    if i < p && j < p {
                        assert(ns[ns.len() - 2].0 <= i && j < ns[ns.len() - 2].1);
                    } else if i > p && j > p {
                        assert(ns[ns.len() - 1].0 <= i && j < ns[ns.len() - 1].1);
                    } else {
                        assert(b[i] <= b[p as int] && b[p as int] <= b[j]);
                    }
                } else if !in_i && !in_j {
                    assert(a[i] == b[i] && a[j] == b[j]);
                    if !(a[i] <= a[j]) {
                        let t = choose|t: int|
                            0 <= t < old_stack.len() && #[trigger] old_stack[t].0 <= i && j
                                < old_stack[t].1;
                        if t == old_stack.len() - 1 {
                            assert(false);
                        }
                        assert(ns[t] == old_stack[t]);
                    }
                } else if in_j {
                    lemma_bound_moves(a, b, lo as int, hi as int, j);
                    let m = choose|m: int| lo <= m < hi && a[m] == b[j];
                    assert(a[i] == b[i]);
                    assert(i < lo);
                    if !(a[i] <= a[m]) {
                        let t = choose|t: int|
                            0 <= t < old_stack.len() && #[trigger] old_stack[t].0 <= i && m
                                < old_stack[t].1;
                        assert(old_stack[t].1 <= lo || hi <= old_stack[t].0 || t
                            == old_stack.len() - 1);
                        assert(false);
                    }
                } else {
                    lemma_bound_moves(a, b, lo as int, hi as int, i);
                    let m = choose|m: int| lo <= m < hi && a[m] == b[i];
                    assert(a[j] == b[j]);
                    assert(j >= hi);
                    if !(a[m] <= a[j]) {
                        let t = choose|t: int|
                            0 <= t < old_stack.len() && #[trigger] old_stack[t].0 <= m && j
                                < old_stack[t].1;
                        assert(old_stack[t].1 <= lo || hi <= old_stack[t].0 || t
                            == old_stack.len() - 1);
                        assert(false);
                    }
                }
            }
        }
    }
}

} // verus!
