//! Sums of a per-element quantity over a sequence, with the facts that
//! bookkeeping code needs: appending, replacing one element, bounds.

use vstd::prelude::*;

verus! {

/// The sum of `f` over the elements of `s`.
pub open spec fn seq_sum<T>(s: Seq<T>, f: spec_fn(T) -> int) -> int
    decreases s.len(),
{
    if s.len() == 0 {
        0
    } else {
        seq_sum(s.drop_last(), f) + f(s.last())
    }
}

/// Appending an element adds its value.
pub proof fn lemma_sum_push<T>(s: Seq<T>, x: T, f: spec_fn(T) -> int)
    ensures
        seq_sum(s.push(x), f) == seq_sum(s, f) + f(x),
{
    assert(s.push(x).drop_last() =~= s);
}

/// Replacing one element changes the sum by the difference of the values.
pub proof fn lemma_sum_update<T>(s: Seq<T>, i: int, x: T, f: spec_fn(T) -> int)
    requires
        0 <= i < s.len(),
    ensures
        seq_sum(s.update(i, x), f) == seq_sum(s, f) - f(s[i]) + f(x),
    decreases s.len(),
{
    if i == s.len() - 1 {
        assert(s.update(i, x).drop_last() =~= s.drop_last());
    } else {
        lemma_sum_update(s.drop_last(), i, x, f);
        assert(s.update(i, x).drop_last() =~= s.drop_last().update(i, x));
    }
}

/// A sum of non-negative values is non-negative, and no element exceeds it.
pub proof fn lemma_sum_nonneg<T>(s: Seq<T>, f: spec_fn(T) -> int)
    requires
        forall|j: int| 0 <= j < s.len() ==> f(#[trigger] s[j]) >= 0,
    ensures
        seq_sum(s, f) >= 0,
        forall|j: int| 0 <= j < s.len() ==> f(#[trigger] s[j]) <= seq_sum(s, f),
    decreases s.len(),
{
    if s.len() > 0 {
        let p = s.drop_last();
        assert forall|j: int| 0 <= j < p.len() implies f(#[trigger] p[j]) >= 0 by {
            assert(p[j] == s[j]);
        }
        lemma_sum_nonneg(p, f);
        assert forall|j: int| 0 <= j < s.len() implies f(#[trigger] s[j]) <= seq_sum(s, f) by {
            if j < s.len() - 1 {
                assert(p[j] == s[j]);
            }
        }
    }
}

/// The sum over a prefix of non-negative values is at most the whole sum.
pub proof fn lemma_sum_prefix<T>(s: Seq<T>, n: int, f: spec_fn(T) -> int)
    requires
        0 <= n <= s.len(),
        forall|j: int| 0 <= j < s.len() ==> f(#[trigger] s[j]) >= 0,
    ensures
        seq_sum(s.take(n), f) <= seq_sum(s, f),
    decreases s.len(),
{
    if n == s.len() {
        assert(s.take(n) =~= s);
    } else {
        let p = s.drop_last();
        assert forall|j: int| 0 <= j < p.len() implies f(#[trigger] p[j]) >= 0 by {
            assert(p[j] == s[j]);
        }
        lemma_sum_prefix(p, n, f);
        assert(p.take(n) =~= s.take(n));
    }
}

/// Extending a prefix by one element adds that element's value.
pub proof fn lemma_sum_take_next<T>(s: Seq<T>, n: int, f: spec_fn(T) -> int)
    requires
        0 <= n < s.len(),
    ensures
        seq_sum(s.take(n + 1), f) == seq_sum(s.take(n), f) + f(s[n]),
{
    assert(s.take(n + 1).drop_last() =~= s.take(n));
}

/// A pointwise smaller quantity has a smaller sum.
pub proof fn lemma_sum_le<T>(s: Seq<T>, f: spec_fn(T) -> int, g: spec_fn(T) -> int)
    requires
        forall|j: int| 0 <= j < s.len() ==> f(#[trigger] s[j]) <= g(s[j]),
    ensures
        seq_sum(s, f) <= seq_sum(s, g),
    decreases s.len(),
{
    if s.len() > 0 {
        let p = s.drop_last();
        assert forall|j: int| 0 <= j < p.len() implies f(#[trigger] p[j]) <= g(p[j]) by {
            assert(p[j] == s[j]);
        }
        lemma_sum_le(p, f, g);
    }
}

} // verus!
