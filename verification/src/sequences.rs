use vstd::prelude::*;
use vstd::multiset::Multiset;

verus! {

/// `s` is in non-decreasing order.
pub open spec fn sorted(s: Seq<u32>) -> bool {
    forall|i: int, j: int| 0 <= i <= j < s.len() ==> s[i] <= s[j]
}

/// `a` and `b` hold the same values, each as often.
pub open spec fn permutation(a: Seq<u32>, b: Seq<u32>) -> bool {
    a.to_multiset() == b.to_multiset()
}

/// `s` with the values at `i` and `j` exchanged.
pub open spec fn swapped(s: Seq<u32>, i: int, j: int) -> Seq<u32> {
    s.update(i, s[j]).update(j, s[i])
}

/// Exchanging two values keeps the multiset of values.
pub proof fn lemma_swap_permutation(s: Seq<u32>, i: int, j: int)
    requires
        0 <= i < s.len(),
        0 <= j < s.len(),
    ensures
        swapped(s, i, j).to_multiset() == s.to_multiset(),
        swapped(s, i, j).len() == s.len(),
{
    broadcast use vstd::seq_lib::to_multiset_update;
    broadcast use vstd::seq_lib::to_multiset_contains;
    broadcast use vstd::multiset::group_multiset_axioms;

    let m = s.to_multiset();
    assert(s.contains(s[i]));
    let s1 = s.update(i, s[j]);
    assert(s1.to_multiset() == m.insert(s[j]).remove(s[i]));
    assert(s1[j] == s[j]);
    let s2 = s1.update(j, s[i]);
    assert(s2.to_multiset() == s1.to_multiset().insert(s[i]).remove(s[j]));
    assert forall|x: u32| #[trigger] s2.to_multiset().count(x) == m.count(x) by {
        assert(m.count(s[i]) > 0);
    }
    assert(s2.to_multiset() =~= m);
}

/// A permutation of a permutation.
pub proof fn lemma_permutation_transitive(a: Seq<u32>, b: Seq<u32>, c: Seq<u32>)
    requires
        permutation(a, b),
        permutation(b, c),
    ensures
        permutation(a, c),
{
}

/// Sequences of length at most one are sorted.
pub proof fn lemma_short_sorted(s: Seq<u32>)
    requires
        s.len() <= 1,
    ensures
        sorted(s),
{
}

/// Permutations have the same length.
pub proof fn lemma_permutation_len(a: Seq<u32>, b: Seq<u32>)
    requires
        permutation(a, b),
    ensures
        a.len() == b.len(),
{
    a.to_multiset_ensures();
    b.to_multiset_ensures();
}

/// A value of a permutation occurs in the other sequence too.
pub proof fn lemma_permutation_contains(a: Seq<u32>, b: Seq<u32>, x: u32)
    requires
        permutation(a, b),
    ensures
        a.contains(x) <==> b.contains(x),
{
    broadcast use vstd::seq_lib::to_multiset_contains;
    assert(a.contains(x) <==> a.to_multiset().count(x) > 0);
    assert(b.contains(x) <==> b.to_multiset().count(x) > 0);
}

} // verus!

verus! {

/// Sorts the values in ascending order.
pub fn sort_ascending(v: &mut Vec<u32>)
    ensures
        sorted(final(v)@),
        permutation(final(v)@, old(v)@),
{
    let n = v.len();
    let mut i: usize = 1;
    if n == 0 {
        return;
    }
    while i < n
        invariant
            n == v@.len(),
            1 <= i <= n,
            sorted(v@.take(i as int)),
            permutation(v@, old(v)@),
        decreases n - i,
    {
        let mut j = i;
        proof {
            let t = v@.take(i as int);
            assert forall|p: int, q: int| 0 <= p <= q <= i && p != j && q != j implies #[trigger] v@[p] <= #[trigger] v@[q] by {
                assert(t[p] == v@[p]);
                assert(t[q] == v@[q]);
            }
        }
        while j > 0 && v[j - 1] > v[j]
            invariant
                n == v@.len(),
                i < n,
                j <= i,
                permutation(v@, old(v)@),
                forall|p: int, q: int| 0 <= p <= q <= i && p != j && q != j ==> #[trigger] v@[p] <= #[trigger] v@[q],
                forall|q: int| j < q <= i ==> v@[j as int] < #[trigger] v@[q],
            decreases j,
        {
            let ghost before = v@;
            let a = v[j - 1];
            let b = v[j];
            v.set(j - 1, b);
            v.set(j, a);
            proof {
                lemma_swap_permutation(before, j - 1, j as int);
                assert(v@ =~= swapped(before, j - 1, j as int));
                lemma_permutation_transitive(v@, before, old(v)@);
            }
            j = j - 1;
        }
        proof {
            let t = v@.take(i as int + 1);
            assert forall|p: int, q: int| 0 <= p <= q < t.len() implies #[trigger] t[p] <= #[trigger] t[q] by {
                assert(t[p] == v@[p]);
                assert(t[q] == v@[q]);
                if p < q && q == j && j > 0 {
                    assert(v@[p] <= v@[j - 1] || p == j - 1);
                }
            }
        }
        i = i + 1;
    }
    assert(v@.take(n as int) =~= v@);
}

} // verus!

verus! {

/// Two sorted permutations of each other are equal.
pub proof fn lemma_sorted_permutation_equal(a: Seq<u32>, b: Seq<u32>)
    requires
        sorted(a),
        sorted(b),
        permutation(a, b),
    ensures
        a == b,
    decreases a.len(),
{
    broadcast use vstd::seq_lib::to_multiset_build;
    broadcast use vstd::seq_lib::to_multiset_contains;
    broadcast use vstd::multiset::group_multiset_axioms;
    lemma_permutation_len(a, b);
    if a.len() > 0 {
        let n = a.len() as int;
        let x = a[n - 1];
        let y = b[n - 1];
        assert(a.contains(x));
        lemma_permutation_contains(a, b, x);
        lemma_permutation_contains(a, b, y);
        assert(b.contains(y));
        let i = choose|i: int| 0 <= i < n && b[i] == x;
        let j = choose|j: int| 0 <= j < n && a[j] == y;
        assert(x <= y);
        assert(y <= x);
        assert(a == a.drop_last().push(x));
        assert(b == b.drop_last().push(y));
        assert(a.drop_last().to_multiset() =~= b.drop_last().to_multiset()) by {
            let ma = a.drop_last().to_multiset();
            let mb = b.drop_last().to_multiset();
            assert(a.drop_last().push(x).to_multiset() == ma.insert(x));
            assert(b.drop_last().push(x).to_multiset() == mb.insert(x));
            assert(ma.insert(x) == mb.insert(x));
            assert forall|z: u32| ma.count(z) == mb.count(z) by {
                assert(ma.insert(x).count(z) == mb.insert(x).count(z));
            }
        }
        lemma_sorted_permutation_equal(a.drop_last(), b.drop_last());
        assert(a =~= b);
    } else {
        assert(a =~= b);
    }
}

/// `a` comes before `b` in the order that compares the first parts, then the second, and
/// so on.
pub open spec fn lex_before(a: (int, int, int, int), b: (int, int, int, int)) -> bool {
    ||| a.0 < b.0
    ||| a.0 == b.0 && a.1 < b.1
    ||| a.0 == b.0 && a.1 == b.1 && a.2 < b.2
    ||| a.0 == b.0 && a.1 == b.1 && a.2 == b.2 && a.3 < b.3
}

/// The number of values in `s` larger than `x`.
pub open spec fn count_greater(s: Seq<u32>, x: u32) -> int
    decreases s.len(),
{
    if s.len() == 0 {
        0
    } else {
        count_greater(s.drop_last(), x) + if s.last() > x {
            1int
        } else {
            0int
        }
    }
}

/// The number of inversions of `s`: pairs of positions whose values are out of order.
pub open spec fn inversions(s: Seq<u32>) -> int
    decreases s.len(),
{
    if s.len() == 0 {
        0
    } else {
        inversions(s.drop_last()) + count_greater(s.drop_last(), s.last())
    }
}

/// `s` with the values at `k` and `k + 1` exchanged.
pub open spec fn swap_next(s: Seq<u32>, k: int) -> Seq<u32> {
    s.update(k, s[k + 1]).update(k + 1, s[k])
}

/// Exchanging two neighbours keeps the number of values larger than `x`.
pub proof fn lemma_count_greater_swap(s: Seq<u32>, k: int, x: u32)
    requires
        0 <= k,
        k + 1 < s.len(),
    ensures
        count_greater(swap_next(s, k), x) == count_greater(s, x),
    decreases s.len(),
{
    let t = swap_next(s, k);
    if k + 1 < s.len() - 1 {
        assert(t.drop_last() =~= swap_next(s.drop_last(), k));
        lemma_count_greater_swap(s.drop_last(), k, x);
        assert(t.last() == s.last());
    } else {
        let p = s.drop_last().drop_last();
        assert(t.drop_last().drop_last() =~= p);
        assert(s.drop_last().last() == t.last() && s.last() == t.drop_last().last());
        assert(count_greater(s.drop_last(), x) == count_greater(p, x) + if s.drop_last().last() > x {
            1int
        } else {
            0int
        });
        assert(count_greater(t.drop_last(), x) == count_greater(p, x) + if t.drop_last().last() > x {
            1int
        } else {
            0int
        });
    }
}

/// Exchanging two neighbours that are out of order removes exactly one inversion.
pub proof fn lemma_inversions_swap(s: Seq<u32>, k: int)
    requires
        0 <= k,
        k + 1 < s.len(),
        s[k] > s[k + 1],
    ensures
        inversions(swap_next(s, k)) + 1 == inversions(s),
    decreases s.len(),
{
    let t = swap_next(s, k);
    if k + 1 < s.len() - 1 {
        assert(t.drop_last() =~= swap_next(s.drop_last(), k));
        lemma_inversions_swap(s.drop_last(), k);
        lemma_count_greater_swap(s.drop_last(), k, s.last());
        assert(t.last() == s.last());
    } else {
        let p = s.drop_last().drop_last();
        assert(t.drop_last().drop_last() =~= p);
        let x = s[k];
        let y = s[k + 1];
        assert(s.drop_last().last() == x && s.last() == y);
        assert(t.drop_last().last() == y && t.last() == x);
        assert(inversions(s.drop_last()) == inversions(p) + count_greater(p, x));
        assert(inversions(t.drop_last()) == inversions(p) + count_greater(p, y));
        assert(count_greater(s.drop_last(), y) == count_greater(p, y) + 1);
        assert(count_greater(t.drop_last(), x) == count_greater(p, x));
    }
}

/// No value of `s` is larger than `x`, so none is counted.
pub proof fn lemma_count_greater_none(s: Seq<u32>, x: u32)
    requires
        forall|i: int| 0 <= i < s.len() ==> s[i] <= x,
    ensures
        count_greater(s, x) == 0,
    decreases s.len(),
{
    if s.len() > 0 {
        lemma_count_greater_none(s.drop_last(), x);
    }
}

/// A sequence in order has no inversions.
pub proof fn lemma_sorted_no_inversions(s: Seq<u32>)
    requires
        sorted(s),
    ensures
        inversions(s) == 0,
    decreases s.len(),
{
    if s.len() > 0 {
        let p = s.drop_last();
        assert(sorted(p));
        lemma_sorted_no_inversions(p);
        lemma_count_greater_none(p, s.last());
    }
}

/// Taking out the value at `k` takes it out of the count too.
pub proof fn lemma_count_greater_remove(s: Seq<u32>, k: int, x: u32)
    requires
        0 <= k < s.len(),
    ensures
        count_greater(s, x) == count_greater(s.remove(k), x) + if s[k] > x {
            1int
        } else {
            0int
        },
    decreases s.len(),
{
    if k == s.len() - 1 {
        assert(s.remove(k) =~= s.drop_last());
    } else {
        assert(s.remove(k).drop_last() =~= s.drop_last().remove(k));
        assert(s.remove(k).last() == s.last());
        lemma_count_greater_remove(s.drop_last(), k, x);
    }
}

/// Sequences holding the same values have as many values larger than `x`.
pub proof fn lemma_count_greater_permutation(a: Seq<u32>, b: Seq<u32>, x: u32)
    requires
        permutation(a, b),
    ensures
        count_greater(a, x) == count_greater(b, x),
    decreases a.len(),
{
    broadcast use vstd::seq_lib::group_to_multiset_ensures;
    if a.len() == 0 {
        assert(b.to_multiset().len() == 0);
        assert(b.len() == 0);
    } else {
        let y = a.last();
        assert(a.drop_last().push(y) =~= a);
        assert(a.to_multiset().count(y) > 0);
        assert(b.contains(y));
        let k = choose|k: int| 0 <= k < b.len() && b[k] == y;
        assert(a.drop_last().to_multiset() =~= a.to_multiset().remove(y));
        assert(b.remove(k).to_multiset() =~= b.to_multiset().remove(y));
        lemma_count_greater_permutation(a.drop_last(), b.remove(k), x);
        lemma_count_greater_remove(b, k, x);
    }
}

/// The count of larger values over two parts is the sum of their counts.
pub proof fn lemma_count_greater_split(s: Seq<u32>, m: int, x: u32)
    requires
        0 <= m <= s.len(),
    ensures
        count_greater(s, x) == count_greater(s.take(m), x) + count_greater(s.skip(m), x),
    decreases s.len(),
{
    if s.len() > m {
        lemma_count_greater_split(s.drop_last(), m, x);
        assert(s.drop_last().take(m) =~= s.take(m));
        assert(s.skip(m).drop_last() =~= s.drop_last().skip(m));
        assert(s.skip(m).last() == s.last());
    } else {
        assert(s.take(m) =~= s);
        assert(s.skip(m) =~= Seq::<u32>::empty());
    }
}

/// Where every value is larger than `x`, all are counted.
pub proof fn lemma_count_greater_all(s: Seq<u32>, x: u32)
    requires
        forall|i: int| 0 <= i < s.len() ==> s[i] > x,
    ensures
        count_greater(s, x) == s.len(),
    decreases s.len(),
{
    if s.len() > 0 {
        lemma_count_greater_all(s.drop_last(), x);
    }
}

/// At most every value is counted.
pub proof fn lemma_count_greater_bound(s: Seq<u32>, x: u32)
    ensures
        0 <= count_greater(s, x) <= s.len(),
    decreases s.len(),
{
    if s.len() > 0 {
        lemma_count_greater_bound(s.drop_last(), x);
    }
}

/// In a sequence, a value with no larger value before it and no smaller value after it
/// is the value at its position once the sequence is put in order.
pub proof fn lemma_place_in_order(a: Seq<u32>, s: Seq<u32>, i: int)
    requires
        0 <= i < a.len(),
        permutation(a, s),
        sorted(s),
        forall|p: int| 0 <= p < i ==> a[p] <= a[i],
        forall|q: int| i < q < a.len() ==> a[i] <= a[q],
    ensures
        s.len() == a.len(),
        s[i] == a[i],
{
    broadcast use vstd::seq_lib::group_to_multiset_ensures;
    let n = a.len() as int;
    assert(a.to_multiset().len() == s.to_multiset().len());
    let x = a[i];
    lemma_count_greater_permutation(a, s, x);
    // in `a`, the values larger than `x` lie after `i`
    lemma_count_greater_split(a, i + 1, x);
    lemma_count_greater_none(a.take(i + 1), x);
    lemma_count_greater_bound(a.skip(i + 1), x);
    if s[i] > x {
        lemma_count_greater_split(s, i, x);
        lemma_count_greater_all(s.skip(i), x);
        lemma_count_greater_bound(s.take(i), x);
        assert(false);
    }
    if s[i] < x {
        let w = (x - 1) as u32;
        lemma_count_greater_permutation(a, s, w);
        lemma_count_greater_split(a, i, w);
        lemma_count_greater_all(a.skip(i), w);
        lemma_count_greater_bound(a.take(i), w);
        lemma_count_greater_split(s, i + 1, w);
        lemma_count_greater_none(s.take(i + 1), w);
        lemma_count_greater_bound(s.skip(i + 1), w);
        assert(false);
    }
}

} // verus!
