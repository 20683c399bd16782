//! The mathematical model of a bit store: a sequence of booleans, index 0 being
//! the least significant bit, together with the functions on such sequences
//! that the contracts of the crate are written in.
use vstd::prelude::*;

verus! {

/// The number of `true` entries of `s`.
pub open spec fn count_true(s: Seq<bool>) -> nat
    decreases s.len(),
{
    if s.len() == 0 {
        0
    } else {
        count_true(s.drop_last()) + if s.last() {
            1nat
        } else {
            0nat
        }
    }
}

/// The length of the run of entries equal to `value` that starts at index
/// `from` and goes upward.
pub open spec fn low_run_from(s: Seq<bool>, value: bool, from: int) -> nat
    decreases s.len() - from,
{
    if 0 <= from < s.len() && s[from] == value {
        1 + low_run_from(s, value, from + 1)
    } else {
        0
    }
}

/// The length of the run of entries equal to `value` at the low end of `s`.
pub open spec fn low_run(s: Seq<bool>, value: bool) -> nat {
    low_run_from(s, value, 0)
}

/// The length of the run of entries equal to `value` that ends just below
/// index `to` and goes downward.
pub open spec fn high_run_to(s: Seq<bool>, value: bool, to: int) -> nat
    decreases to,
{
    if 0 < to <= s.len() && s[to - 1] == value {
        1 + high_run_to(s, value, to - 1)
    } else {
        0
    }
}

/// The length of the run of entries equal to `value` at the high end of `s`.
pub open spec fn high_run(s: Seq<bool>, value: bool) -> nat {
    high_run_to(s, value, s.len() as int)
}

/// `n` bits, all of them `value`.
pub open spec fn uniform(n: nat, value: bool) -> Seq<bool> {
    Seq::new(n, |i: int| value)
}

/// Bitwise OR of two sequences of the same length.
pub open spec fn union_bits(a: Seq<bool>, b: Seq<bool>) -> Seq<bool> {
    Seq::new(a.len(), |i: int| a[i] || b[i])
}

/// Bitwise AND of two sequences of the same length.
pub open spec fn intersect_bits(a: Seq<bool>, b: Seq<bool>) -> Seq<bool> {
    Seq::new(a.len(), |i: int| a[i] && b[i])
}

/// Bitwise AND-NOT of two sequences of the same length.
pub open spec fn difference_bits(a: Seq<bool>, b: Seq<bool>) -> Seq<bool> {
    Seq::new(a.len(), |i: int| a[i] && !b[i])
}

/// Bitwise XOR of two sequences of the same length.
pub open spec fn symmetric_difference_bits(a: Seq<bool>, b: Seq<bool>) -> Seq<bool> {
    Seq::new(a.len(), |i: int| a[i] != b[i])
}

/// Bitwise complement of a sequence.
pub open spec fn negate_bits(a: Seq<bool>) -> Seq<bool> {
    Seq::new(a.len(), |i: int| !a[i])
}

/// The indices below `n` at which `s` holds `true`, in ascending order.
pub open spec fn ones_below(s: Seq<bool>, n: nat) -> Seq<u32>
    decreases n,
{
    if n == 0 {
        Seq::empty()
    } else if s[n - 1] {
        ones_below(s, (n - 1) as nat).push((n - 1) as u32)
    } else {
        ones_below(s, (n - 1) as nat)
    }
}

/// A sequence has at most as many `true` entries as it has entries.
pub proof fn lemma_count_true_bound(s: Seq<bool>)
    ensures
        count_true(s) <= s.len(),
    decreases s.len(),
{
    if s.len() > 0 {
        lemma_count_true_bound(s.drop_last());
    }
}

/// The count is zero exactly when no entry is `true`.
pub proof fn lemma_count_true_zero(s: Seq<bool>)
    ensures
        count_true(s) == 0 <==> (forall|i: int| 0 <= i < s.len() ==> !s[i]),
    decreases s.len(),
{
    if s.len() > 0 {
        let t = s.drop_last();
        lemma_count_true_zero(t);
        if count_true(s) == 0 {
            assert forall|i: int| 0 <= i < s.len() implies !s[i] by {
                if i < t.len() {
                    assert(t[i] == s[i]);
                }
            }
        }
        if forall|i: int| 0 <= i < s.len() ==> !s[i] {
            assert forall|i: int| 0 <= i < t.len() implies !t[i] by {
                assert(t[i] == s[i]);
            }
        }
    }
}

/// The count equals the length exactly when every entry is `true`.
pub proof fn lemma_count_true_full(s: Seq<bool>)
    ensures
        count_true(s) == s.len() <==> (forall|i: int| 0 <= i < s.len() ==> s[i]),
    decreases s.len(),
{
    if s.len() > 0 {
        let t = s.drop_last();
        lemma_count_true_full(t);
        lemma_count_true_bound(t);
        if count_true(s) == s.len() {
            assert forall|i: int| 0 <= i < s.len() implies s[i] by {
                if i < t.len() {
                    assert(t[i] == s[i]);
                }
            }
        }
        if forall|i: int| 0 <= i < s.len() ==> s[i] {
            assert forall|i: int| 0 <= i < t.len() implies t[i] by {
                assert(t[i] == s[i]);
            }
        }
    }
}

/// Counting distributes over concatenation.
pub proof fn lemma_count_true_concat(a: Seq<bool>, b: Seq<bool>)
    ensures
        count_true(a + b) == count_true(a) + count_true(b),
    decreases b.len(),
{
    if b.len() == 0 {
        assert(a + b =~= a);
    } else {
        assert((a + b).drop_last() =~= a + b.drop_last());
        lemma_count_true_concat(a, b.drop_last());
    }
}

/// What a run from `from` upward is: it stays inside the sequence, every entry
/// in it equals `value`, and the entry just above it, if any, does not.
pub proof fn lemma_low_run_from_props(s: Seq<bool>, value: bool, from: int)
    requires
        0 <= from <= s.len(),
    ensures
        from + low_run_from(s, value, from) <= s.len(),
        forall|j: int| from <= j < from + low_run_from(s, value, from) ==> s[j] == value,
        from + low_run_from(s, value, from) < s.len() ==> s[from + low_run_from(s, value, from)]
            != value,
    decreases s.len() - from,
{
    if from < s.len() && s[from] == value {
        lemma_low_run_from_props(s, value, from + 1);
    }
}

/// A number with the three properties of a run from `from` upward is that run.
pub proof fn lemma_low_run_from_unique(s: Seq<bool>, value: bool, from: int, r: nat)
    requires
        0 <= from,
        from + r <= s.len(),
        forall|j: int| from <= j < from + r ==> s[j] == value,
        from + r < s.len() ==> s[from + r] != value,
    ensures
        low_run_from(s, value, from) == r,
    decreases r,
{
    if r > 0 {
        lemma_low_run_from_unique(s, value, from + 1, (r - 1) as nat);
    }
}

/// What the run at the low end is.
pub proof fn lemma_low_run_props(s: Seq<bool>, value: bool)
    ensures
        low_run(s, value) <= s.len(),
        forall|j: int| 0 <= j < low_run(s, value) ==> s[j] == value,
        low_run(s, value) < s.len() ==> s[low_run(s, value) as int] != value,
{
    lemma_low_run_from_props(s, value, 0);
}

/// A number with the three properties of the run at the low end is that run.
pub proof fn lemma_low_run_unique(s: Seq<bool>, value: bool, r: nat)
    requires
        r <= s.len(),
        forall|j: int| 0 <= j < r ==> s[j] == value,
        r < s.len() ==> s[r as int] != value,
    ensures
        low_run(s, value) == r,
{
    lemma_low_run_from_unique(s, value, 0, r);
}

/// What a run from `to` downward is: it stays inside the sequence, every entry
/// in it equals `value`, and the entry just below it, if any, does not.
pub proof fn lemma_high_run_to_props(s: Seq<bool>, value: bool, to: int)
    requires
        0 <= to <= s.len(),
    ensures
        high_run_to(s, value, to) <= to,
        forall|j: int| to - high_run_to(s, value, to) <= j < to ==> s[j] == value,
        high_run_to(s, value, to) < to ==> s[to - high_run_to(s, value, to) - 1] != value,
    decreases to,
{
    if 0 < to && s[to - 1] == value {
        lemma_high_run_to_props(s, value, to - 1);
    }
}

/// A number with the three properties of a run from `to` downward is that run.
pub proof fn lemma_high_run_to_unique(s: Seq<bool>, value: bool, to: int, r: nat)
    requires
        r <= to <= s.len(),
        forall|j: int| to - r <= j < to ==> s[j] == value,
        r < to ==> s[to - r - 1] != value,
    ensures
        high_run_to(s, value, to) == r,
    decreases r,
{
    if r > 0 {
        lemma_high_run_to_unique(s, value, to - 1, (r - 1) as nat);
    }
}

/// What the run at the high end is.
pub proof fn lemma_high_run_props(s: Seq<bool>, value: bool)
    ensures
        high_run(s, value) <= s.len(),
        forall|j: int| s.len() - high_run(s, value) <= j < s.len() ==> s[j] == value,
        high_run(s, value) < s.len() ==> s[s.len() - high_run(s, value) - 1] != value,
{
    lemma_high_run_to_props(s, value, s.len() as int);
}

/// A number with the three properties of the run at the high end is that run.
pub proof fn lemma_high_run_unique(s: Seq<bool>, value: bool, r: nat)
    requires
        r <= s.len(),
        forall|j: int| s.len() - r <= j < s.len() ==> s[j] == value,
        r < s.len() ==> s[s.len() - r - 1] != value,
    ensures
        high_run(s, value) == r,
{
    lemma_high_run_to_unique(s, value, s.len() as int, r);
}

/// A store of zeros holds no one, and a store of ones holds nothing else.
pub proof fn lemma_uniform_count(n: nat)
    ensures
        count_true(uniform(n, false)) == 0,
        count_true(uniform(n, true)) == n,
{
    lemma_count_true_zero(uniform(n, false));
    lemma_count_true_full(uniform(n, true));
}

/// Complementing twice gives the sequence back.
pub proof fn lemma_negate_twice(s: Seq<bool>)
    ensures
        negate_bits(negate_bits(s)) == s,
{
    assert(negate_bits(negate_bits(s)) =~= s);
}

/// The difference of `a` and `b` is empty exactly when every bit of `a` is
/// also set in `b`, and their intersection is empty exactly when no bit is set
/// in both.
pub proof fn lemma_relations_pointwise(a: Seq<bool>, b: Seq<bool>)
    requires
        a.len() == b.len(),
    ensures
        count_true(difference_bits(a, b)) == 0 <==> (forall|i: int|
            0 <= i < a.len() ==> (a[i] ==> b[i])),
        count_true(intersect_bits(a, b)) == 0 <==> (forall|i: int|
            0 <= i < a.len() ==> !(a[i] && b[i])),
{
    let d = difference_bits(a, b);
    let n = intersect_bits(a, b);
    lemma_count_true_zero(d);
    lemma_count_true_zero(n);
    if count_true(d) == 0 {
        assert forall|i: int| 0 <= i < a.len() && a[i] implies b[i] by {
            assert(!d[i]);
        }
    }
    if count_true(n) == 0 {
        assert forall|i: int| 0 <= i < a.len() implies !(a[i] && b[i]) by {
            assert(!n[i]);
        }
    }
}

/// Every entry of `ones_below(s, n)` is an index below `n` at which `s` is
/// set, every such index occurs in it, and the entries ascend strictly.
pub proof fn lemma_ones_below(s: Seq<bool>, n: nat)
    requires
        n <= s.len(),
        n <= u32::MAX,
    ensures
        ones_below(s, n).len() <= n,
        forall|k: int|
            0 <= k < ones_below(s, n).len() ==> (#[trigger] ones_below(s, n)[k]) < n && s[ones_below(
                s,
                n,
            )[k] as int],
        forall|i: int| 0 <= i < n && s[i] ==> ones_below(s, n).contains(i as u32),
        forall|k: int, l: int|
            0 <= k < l < ones_below(s, n).len() ==> ones_below(s, n)[k] < ones_below(s, n)[l],
    decreases n,
{
    if n > 0 {
        let m = (n - 1) as nat;
        let prev = ones_below(s, m);
        let cur = ones_below(s, n);
        lemma_ones_below(s, m);
        assert forall|i: int| 0 <= i < n && s[i] implies cur.contains(i as u32) by {
            if i < m {
                let k = choose|k: int| 0 <= k < prev.len() && prev[k] == i as u32;
                assert(cur[k] == i as u32);
            } else {
                assert(cur[cur.len() - 1] == i as u32);
            }
        }
    }
}

} // verus!
