//! Sums and counts over sequences, with the facts about them that the
//! store's invariants rest on.

use vstd::prelude::*;

verus! {

/// The sum of the weights of the elements of `s`.
pub open spec fn total<T>(s: Seq<T>, weight: spec_fn(T) -> nat) -> nat
    decreases s.len(),
{
    if s.len() == 0 {
        0
    } else {
        total(s.drop_last(), weight) + weight(s.last())
    }
}

/// The weight that counts an element once if `keep` holds of it.
pub open spec fn indicator<T>(keep: spec_fn(T) -> bool) -> spec_fn(T) -> nat {
    |x: T|
        if keep(x) {
            1nat
        } else {
            0nat
        }
}

/// The number of elements of `s` of which `keep` holds.
pub open spec fn count<T>(s: Seq<T>, keep: spec_fn(T) -> bool) -> nat {
    total(s, indicator(keep))
}

/// Appending an element adds its weight.
pub proof fn lemma_total_push<T>(s: Seq<T>, x: T, weight: spec_fn(T) -> nat)
    ensures
        total(s.push(x), weight) == total(s, weight) + weight(x),
{
    assert(s.push(x).drop_last() =~= s);
}

/// Replacing an element exchanges its weight for that of the new one.
pub proof fn lemma_total_update<T>(s: Seq<T>, i: int, x: T, weight: spec_fn(T) -> nat)
    requires
        0 <= i < s.len(),
    ensures
        total(s.update(i, x), weight) + weight(s[i]) == total(s, weight) + weight(x),
    decreases s.len(),
{
    if i == s.len() - 1 {
        assert(s.update(i, x).drop_last() =~= s.drop_last());
    } else {
        assert(s.update(i, x).drop_last() =~= s.drop_last().update(i, x));
        lemma_total_update(s.drop_last(), i, x, weight);
    }
}

/// Removing an element takes its weight away.
pub proof fn lemma_total_remove<T>(s: Seq<T>, i: int, weight: spec_fn(T) -> nat)
    requires
        0 <= i < s.len(),
    ensures
        total(s.remove(i), weight) + weight(s[i]) == total(s, weight),
    decreases s.len(),
{
    if i == s.len() - 1 {
        assert(s.remove(i) =~= s.drop_last());
    } else {
        assert(s.remove(i).drop_last() =~= s.drop_last().remove(i));
        lemma_total_remove(s.drop_last(), i, weight);
    }
}

/// Where each element weighs at most `k` times what it weighs otherwise,
/// so do the sums.
pub proof fn lemma_total_scaled<T>(
    s: Seq<T>,
    light: spec_fn(T) -> nat,
    heavy: spec_fn(T) -> nat,
    k: nat,
)
    requires
        forall|i: int| 0 <= i < s.len() ==> light(#[trigger] s[i]) <= k * heavy(s[i]),
    ensures
        total(s, light) <= k * total(s, heavy),
    decreases s.len(),
{
    if s.len() > 0 {
        lemma_total_scaled(s.drop_last(), light, heavy, k);
        assert(light(s.last()) <= k * heavy(s.last()));
        assert(k * (total(s.drop_last(), heavy) + heavy(s.last())) == k * total(
            s.drop_last(),
            heavy,
        ) + k * heavy(s.last())) by (nonlinear_arith);
    }
}

/// Where no element weighs anything, the sum is zero.
pub proof fn lemma_total_none<T>(s: Seq<T>, weight: spec_fn(T) -> nat)
    requires
        forall|i: int| 0 <= i < s.len() ==> weight(#[trigger] s[i]) == 0,
    ensures
        total(s, weight) == 0,
    decreases s.len(),
{
    if s.len() > 0 {
        lemma_total_none(s.drop_last(), weight);
    }
}

/// A count is at most the length.
pub proof fn lemma_count_le_len<T>(s: Seq<T>, keep: spec_fn(T) -> bool)
    ensures
        count(s, keep) <= s.len(),
    decreases s.len(),
{
    if s.len() > 0 {
        lemma_count_le_len(s.drop_last(), keep);
    }
}

/// Where `keep` holds of no element, the count is zero.
pub proof fn lemma_count_none<T>(s: Seq<T>, keep: spec_fn(T) -> bool)
    requires
        forall|i: int| 0 <= i < s.len() ==> !keep(#[trigger] s[i]),
    ensures
        count(s, keep) == 0,
{
    lemma_total_none(s, indicator(keep));
}

/// Appending an element raises the count by one if `keep` holds of it.
pub proof fn lemma_count_push<T>(s: Seq<T>, x: T, keep: spec_fn(T) -> bool)
    ensures
        count(s.push(x), keep) == count(s, keep) + if keep(x) {
            1nat
        } else {
            0nat
        },
{
    lemma_total_push(s, x, indicator(keep));
}

/// Replacing an element by one of which `keep` holds alike keeps the count.
pub proof fn lemma_count_update_same<T>(s: Seq<T>, i: int, x: T, keep: spec_fn(T) -> bool)
    requires
        0 <= i < s.len(),
        keep(x) == keep(s[i]),
    ensures
        count(s.update(i, x), keep) == count(s, keep),
{
    lemma_total_update(s, i, x, indicator(keep));
}

/// Removing an element lowers the count by one if `keep` holds of it.
pub proof fn lemma_count_remove<T>(s: Seq<T>, i: int, keep: spec_fn(T) -> bool)
    requires
        0 <= i < s.len(),
    ensures
        count(s.remove(i), keep) + (if keep(s[i]) {
            1nat
        } else {
            0nat
        }) == count(s, keep),
{
    lemma_total_remove(s, i, indicator(keep));
}

} // verus!
