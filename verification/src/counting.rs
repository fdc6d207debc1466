use vstd::prelude::*;
use vstd::arithmetic::power::pow;
use crate::radix_sort::digit_at;
use crate::sequences::{permutation, sorted};

verus! {

/// The last `q` decimal digits of `x`, as a number.
pub open spec fn low_digits(x: u32, q: nat) -> int {
    (x as int) % pow(10, q)
}

/// `s` is in order by the last `q` decimal digits of its values.
pub open spec fn sorted_low(s: Seq<u32>, q: nat) -> bool {
    forall|i: int, j: int| 0 <= i <= j < s.len() ==> low_digits(s[i], q) <= low_digits(s[j], q)
}

/// The decimal digit of `x` at position `p` (1 for the ones).
pub open spec fn key(x: u32, p: u32) -> int {
    digit_at(x, p, 10) as int
}

/// The values of `s` whose digit at position `p` is `d`, in their order in `s`.
pub open spec fn bucket(s: Seq<u32>, p: u32, d: int) -> Seq<u32>
    decreases s.len(),
{
    if s.len() == 0 {
        Seq::empty()
    } else {
        let b = bucket(s.drop_last(), p, d);
        if key(s.last(), p) == d {
            b.push(s.last())
        } else {
            b
        }
    }
}

/// The buckets of digits `d` to 9, one after the other.
pub open spec fn buckets_from(s: Seq<u32>, p: u32, d: int) -> Seq<u32>
    decreases 10 - d,
{
    if d >= 10 {
        Seq::empty()
    } else {
        bucket(s, p, d) + buckets_from(s, p, d + 1)
    }
}

/// How many values of `s` have a digit at position `p` up to `d`: where the bucket of
/// `d` ends in the output of a counting pass.
pub open spec fn bucket_end(s: Seq<u32>, p: u32, d: int) -> int
    decreases d + 1,
{
    if d < 0 {
        0
    } else {
        bucket_end(s, p, d - 1) + bucket(s, p, d).len()
    }
}

/// A digit is below 10.
pub proof fn lemma_key_range(x: u32, p: u32)
    requires
        p >= 1,
    ensures
        0 <= key(x, p) < 10,
{
    vstd::arithmetic::power::lemma_pow_positive(10, (p - 1) as nat);
    vstd::arithmetic::div_mod::lemma_div_pos_is_pos(x as int, pow(10, (p - 1) as nat));
}

/// The last `p` digits are the digit at `p` followed by the last `p - 1` digits.
pub proof fn lemma_low_digits_split(x: u32, p: u32)
    requires
        p >= 1,
    ensures
        low_digits(x, p as nat) == pow(10, (p - 1) as nat) * key(x, p) + low_digits(x, (p - 1) as nat),
        0 <= low_digits(x, (p - 1) as nat) < pow(10, (p - 1) as nat),
{
    let y = pow(10, (p - 1) as nat);
    vstd::arithmetic::power::lemma_pow_positive(10, (p - 1) as nat);
    vstd::arithmetic::power::lemma_pow_adds(10, (p - 1) as nat, 1);
    vstd::arithmetic::power::lemma_pow1(10);
    assert(pow(10, p as nat) == y * 10);
    vstd::arithmetic::div_mod::lemma_breakdown(x as int, y, 10);
    vstd::arithmetic::div_mod::lemma_mod_bound(x as int, y);
    lemma_key_range(x, p);
}

/// A bucket of a concatenation is the concatenation of the buckets.
pub proof fn lemma_bucket_concat(x: Seq<u32>, y: Seq<u32>, p: u32, d: int)
    ensures
        bucket(x + y, p, d) == bucket(x, p, d) + bucket(y, p, d),
    decreases y.len(),
{
    if y.len() == 0 {
        assert(x + y =~= x);
        assert(bucket(x, p, d) + bucket(y, p, d) =~= bucket(x, p, d));
    } else {
        lemma_bucket_concat(x, y.drop_last(), p, d);
        assert((x + y).drop_last() =~= x + y.drop_last());
        assert((x + y).last() == y.last());
        if key(y.last(), p) == d {
            assert(bucket(x, p, d) + bucket(y, p, d) =~= (bucket(x, p, d) + bucket(y.drop_last(), p, d)).push(y.last()));
        }
    }
}

/// Every value of a bucket has the bucket's digit and is a value of `s`.
pub proof fn lemma_bucket_values(s: Seq<u32>, p: u32, d: int)
    ensures
        forall|i: int| 0 <= i < bucket(s, p, d).len() ==> key(#[trigger] bucket(s, p, d)[i], p) == d,
        forall|i: int| 0 <= i < bucket(s, p, d).len() ==> s.contains(#[trigger] bucket(s, p, d)[i]),
        bucket(s, p, d).len() <= s.len(),
    decreases s.len(),
{
    if s.len() > 0 {
        let t = s.drop_last();
        lemma_bucket_values(t, p, d);
        assert forall|i: int| 0 <= i < bucket(s, p, d).len() implies s.contains(#[trigger] bucket(s, p, d)[i]) by {
            if i < bucket(t, p, d).len() {
                let y = bucket(t, p, d)[i];
                assert(t.contains(y));
                let j = choose|j: int| 0 <= j < t.len() && t[j] == y;
                assert(s[j] == y);
            } else {
                assert(s[s.len() - 1] == s.last());
            }
        }
    }
}

/// A bucket keeps the order of `s` by the last `q` digits.
pub proof fn lemma_bucket_sorted(s: Seq<u32>, p: u32, d: int, q: nat)
    requires
        sorted_low(s, q),
    ensures
        sorted_low(bucket(s, p, d), q),
    decreases s.len(),
{
    if s.len() > 0 {
        let t = s.drop_last();
        assert(sorted_low(t, q)) by {
            assert forall|i: int, j: int| 0 <= i <= j < t.len() implies low_digits(t[i], q) <= low_digits(t[j], q) by {
                assert(t[i] == s[i] && t[j] == s[j]);
            }
        }
        lemma_bucket_sorted(t, p, d, q);
        lemma_bucket_values(t, p, d);
        let b = bucket(t, p, d);
        if key(s.last(), p) == d {
            let c = b.push(s.last());
            assert forall|i: int, j: int| 0 <= i <= j < c.len() implies low_digits(c[i], q) <= low_digits(c[j], q) by {
                if j == c.len() - 1 && i < j {
                    assert(t.contains(b[i]));
                    let k = choose|k: int| 0 <= k < t.len() && t[k] == b[i];
                    assert(s[k] == b[i]);
                    assert(s[s.len() - 1] == s.last());
                } else if j < c.len() - 1 {
                    assert(c[i] == b[i] && c[j] == b[j]);
                }
            }
        }
    }
}

/// The buckets from `d` on hold the values with digits from `d` on.
pub proof fn lemma_buckets_from_values(s: Seq<u32>, p: u32, d: int)
    requires
        0 <= d,
    ensures
        forall|i: int| 0 <= i < buckets_from(s, p, d).len() ==> key(#[trigger] buckets_from(s, p, d)[i], p) >= d,
    decreases 10 - d,
{
    if d < 10 {
        lemma_buckets_from_values(s, p, d + 1);
        lemma_bucket_values(s, p, d);
        let b = bucket(s, p, d);
        let r = buckets_from(s, p, d + 1);
        assert forall|i: int| 0 <= i < buckets_from(s, p, d).len() implies key(#[trigger] buckets_from(s, p, d)[i], p) >= d by {
            if i < b.len() {
                assert(buckets_from(s, p, d)[i] == b[i]);
            } else {
                assert(buckets_from(s, p, d)[i] == r[i - b.len()]);
            }
        }
    }
}

/// The buckets from `d` on, in turn, are in order by the last `p` digits where `s` is
/// by the last `p - 1`.
pub proof fn lemma_buckets_from_sorted(s: Seq<u32>, p: u32, d: int)
    requires
        p >= 1,
        0 <= d,
        sorted_low(s, (p - 1) as nat),
    ensures
        sorted_low(buckets_from(s, p, d), p as nat),
    decreases 10 - d,
{
    if d < 10 {
        lemma_buckets_from_sorted(s, p, d + 1);
        lemma_buckets_from_values(s, p, d + 1);
        lemma_bucket_values(s, p, d);
        lemma_bucket_sorted(s, p, d, (p - 1) as nat);
        let b = bucket(s, p, d);
        let r = buckets_from(s, p, d + 1);
        let c = buckets_from(s, p, d);
        assert(c == b + r);
        let y = pow(10, (p - 1) as nat);
        vstd::arithmetic::power::lemma_pow_positive(10, (p - 1) as nat);
        assert forall|i: int, j: int| 0 <= i <= j < c.len() implies low_digits(c[i], p as nat) <= low_digits(c[j], p as nat) by {
            lemma_low_digits_split(c[i], p);
            lemma_low_digits_split(c[j], p);
            if j < b.len() {
                assert(c[i] == b[i] && c[j] == b[j]);
                assert(key(c[i], p) == d && key(c[j], p) == d);
            } else if i >= b.len() {
                assert(c[i] == r[i - b.len()] && c[j] == r[j - b.len()]);
            } else {
                assert(c[i] == b[i] && c[j] == r[j - b.len()]);
                assert(key(c[i], p) == d);
                assert(key(c[j], p) >= d + 1);
                assert(y * key(c[i], p) + y <= y * key(c[j], p)) by (nonlinear_arith)
                    requires
                        key(c[i], p) + 1 <= key(c[j], p),
                        y > 0,
                ;
            }
        }
    }
}

/// Adding a value puts it in the bucket of its digit.
pub proof fn lemma_buckets_from_push(s: Seq<u32>, x: u32, p: u32, d: int)
    requires
        p >= 1,
        0 <= d,
    ensures
        buckets_from(s.push(x), p, d).to_multiset() == if d <= key(x, p) {
            buckets_from(s, p, d).to_multiset().insert(x)
        } else {
            buckets_from(s, p, d).to_multiset()
        },
    decreases 10 - d,
{
    broadcast use vstd::seq_lib::lemma_multiset_commutative;
    broadcast use vstd::seq_lib::to_multiset_build;
    broadcast use vstd::multiset::group_multiset_axioms;

    lemma_key_range(x, p);
    assert(s.push(x).drop_last() =~= s);
    if d < 10 {
        lemma_buckets_from_push(s, x, p, d + 1);
        let b0 = bucket(s, p, d);
        let r0 = buckets_from(s, p, d + 1);
        if key(x, p) == d {
            assert(bucket(s.push(x), p, d) == b0.push(x));
            assert((b0.push(x) + buckets_from(s.push(x), p, d + 1)).to_multiset() =~= (b0 + r0).to_multiset().insert(x));
        } else {
            assert(bucket(s.push(x), p, d) == b0);
        }
    } else {
        assert(buckets_from(s.push(x), p, d) == Seq::<u32>::empty());
    }
}

/// A counting pass keeps the values.
pub proof fn lemma_buckets_permutation(s: Seq<u32>, p: u32)
    requires
        p >= 1,
    ensures
        permutation(buckets_from(s, p, 0), s),
    decreases s.len(),
{
    broadcast use vstd::seq_lib::to_multiset_build;
    broadcast use vstd::multiset::group_multiset_axioms;

    if s.len() == 0 {
        lemma_buckets_empty(s, p, 0);
        assert(s =~= Seq::<u32>::empty());
    } else {
        let t = s.drop_last();
        lemma_buckets_permutation(t, p);
        lemma_key_range(s.last(), p);
        lemma_buckets_from_push(t, s.last(), p, 0);
        assert(t.push(s.last()) =~= s);
    }
}

/// The buckets of nothing are empty.
pub proof fn lemma_buckets_empty(s: Seq<u32>, p: u32, d: int)
    requires
        s.len() == 0,
    ensures
        buckets_from(s, p, d) == Seq::<u32>::empty(),
    decreases 10 - d,
{
    if d < 10 {
        lemma_buckets_empty(s, p, d + 1);
        assert(bucket(s, p, d) + buckets_from(s, p, d + 1) =~= Seq::<u32>::empty());
    }
}

/// The buckets from `d` on are as long as the values with those digits.
pub proof fn lemma_buckets_from_len(s: Seq<u32>, p: u32, d: int)
    requires
        0 <= d <= 10,
    ensures
        bucket_end(s, p, d - 1) + buckets_from(s, p, d).len() == bucket_end(s, p, 9),
    decreases 10 - d,
{
    if d < 10 {
        lemma_buckets_from_len(s, p, d + 1);
    }
}

/// All the buckets together are as long as `s`.
pub proof fn lemma_bucket_end_total(s: Seq<u32>, p: u32)
    requires
        p >= 1,
    ensures
        bucket_end(s, p, 9) == s.len(),
{
    lemma_buckets_permutation(s, p);
    lemma_buckets_from_len(s, p, 0);
    buckets_from(s, p, 0).to_multiset_ensures();
    s.to_multiset_ensures();
}

/// The ends of the buckets grow.
pub proof fn lemma_bucket_end_mono(s: Seq<u32>, p: u32, d: int, e: int)
    requires
        -1 <= d <= e,
    ensures
        0 <= bucket_end(s, p, d) <= bucket_end(s, p, e),
    decreases e + 1,
{
    if e >= 0 {
        if d < e {
            lemma_bucket_end_mono(s, p, d, e - 1);
        } else {
            lemma_bucket_end_mono(s, p, d - 1, d - 1);
        }
    }
}

/// A sequence that holds each bucket at its place is the output of the counting pass.
pub proof fn lemma_assemble(t: Seq<u32>, s: Seq<u32>, p: u32, d: int)
    requires
        p >= 1,
        0 <= d <= 10,
        t.len() == s.len(),
        forall|e: int|
            d <= e < 10 ==> t.subrange(bucket_end(s, p, e - 1), bucket_end(s, p, e)) == #[trigger] bucket(s, p, e),
    ensures
        t.subrange(bucket_end(s, p, d - 1), t.len() as int) == buckets_from(s, p, d),
    decreases 10 - d,
{
    lemma_bucket_end_total(s, p);
    if d < 10 {
        lemma_assemble(t, s, p, d + 1);
        lemma_bucket_end_mono(s, p, d - 1, d);
        lemma_bucket_end_mono(s, p, d, 9);
        let a = bucket_end(s, p, d - 1);
        let b = bucket_end(s, p, d);
        assert(t.subrange(a, t.len() as int) =~= t.subrange(a, b) + t.subrange(b, t.len() as int));
        assert(t.subrange(a, b) == bucket(s, p, d));
    } else {
        assert(t.subrange(bucket_end(s, p, 9), t.len() as int) =~= Seq::<u32>::empty());
    }
}

/// Values below `10^q` are in order once they are in order by their last `q` digits.
pub proof fn lemma_sorted_from_low(s: Seq<u32>, q: nat)
    requires
        sorted_low(s, q),
        forall|i: int| 0 <= i < s.len() ==> (#[trigger] s[i] as int) < pow(10, q),
    ensures
        sorted(s),
{
    assert forall|i: int, j: int| 0 <= i <= j < s.len() implies s[i] <= s[j] by {
        vstd::arithmetic::div_mod::lemma_small_mod(s[i] as nat, pow(10, q) as nat);
        vstd::arithmetic::div_mod::lemma_small_mod(s[j] as nat, pow(10, q) as nat);
        assert(low_digits(s[i], q) <= low_digits(s[j], q));
    }
}

/// Every sequence is in order by its last zero digits.
pub proof fn lemma_sorted_low_zero(s: Seq<u32>)
    ensures
        sorted_low(s, 0),
{
    vstd::arithmetic::power::lemma_pow0(10);
}

} // verus!
