//! Sums over sequences, and how they move when the sequence changes.

use vstd::prelude::*;

verus! {

/// The sum of `f` over the elements of `s`.
pub open spec fn sum_of<A>(s: Seq<A>, f: spec_fn(A) -> int) -> int
    decreases s.len(),
{
    if s.len() == 0 {
        0
    } else {
        sum_of(s.drop_last(), f) + f(s.last())
    }
}

pub proof fn lemma_sum_push<A>(s: Seq<A>, f: spec_fn(A) -> int, a: A)
    ensures
        sum_of(s.push(a), f) == sum_of(s, f) + f(a),
{
    assert(s.push(a).drop_last() =~= s);
}

pub proof fn lemma_sum_update<A>(s: Seq<A>, f: spec_fn(A) -> int, i: int, a: A)
    requires
        0 <= i < s.len(),
    ensures
        sum_of(s.update(i, a), f) == sum_of(s, f) - f(s[i]) + f(a),
    decreases s.len(),
{
    if i == s.len() - 1 {
        assert(s.update(i, a).drop_last() =~= s.drop_last());
    } else {
        lemma_sum_update(s.drop_last(), f, i, a);
        assert(s.update(i, a).drop_last() =~= s.drop_last().update(i, a));
    }
}

pub proof fn lemma_sum_remove<A>(s: Seq<A>, f: spec_fn(A) -> int, i: int)
    requires
        0 <= i < s.len(),
    ensures
        sum_of(s.remove(i), f) == sum_of(s, f) - f(s[i]),
    decreases s.len(),
{
    if i == s.len() - 1 {
        assert(s.remove(i) =~= s.drop_last());
    } else {
        lemma_sum_remove(s.drop_last(), f, i);
        assert(s.remove(i).drop_last() =~= s.drop_last().remove(i));
        assert(s.remove(i).last() == s.last());
    }
}

pub proof fn lemma_sum_zero<A>(s: Seq<A>, f: spec_fn(A) -> int)
    requires
        forall|i: int| 0 <= i < s.len() ==> #[trigger] f(s[i]) == 0,
    ensures
        sum_of(s, f) == 0,
    decreases s.len(),
{
    if s.len() > 0 {
        lemma_sum_zero(s.drop_last(), f);
    }
}

/// Where no element counts below zero, a prefix never sums to more than the whole.
pub proof fn lemma_sum_prefix<A>(s: Seq<A>, f: spec_fn(A) -> int, n: int)
    requires
        0 <= n <= s.len(),
        forall|i: int| 0 <= i < s.len() ==> #[trigger] f(s[i]) >= 0,
    ensures
        0 <= sum_of(s.take(n), f) <= sum_of(s, f),
    decreases s.len() - n,
{
    if n == s.len() {
        assert(s.take(n) =~= s);
        lemma_sum_nonnegative(s, f);
    } else {
        lemma_sum_prefix(s, f, n + 1);
        assert(s.take(n + 1).drop_last() =~= s.take(n));
        lemma_sum_nonnegative(s.take(n), f);
    }
}

/// Where no element counts below zero, the sum does not either.
pub proof fn lemma_sum_nonnegative<A>(s: Seq<A>, f: spec_fn(A) -> int)
    requires
        forall|i: int| 0 <= i < s.len() ==> #[trigger] f(s[i]) >= 0,
    ensures
        sum_of(s, f) >= 0,
    decreases s.len(),
{
    if s.len() > 0 {
        lemma_sum_nonnegative(s.drop_last(), f);
    }
}

/// A sum that is element by element no more than another is no more in whole.
pub proof fn lemma_sum_bounded<A, B>(
    s: Seq<A>,
    f: spec_fn(A) -> int,
    t: Seq<B>,
    g: spec_fn(B) -> int,
)
    requires
        s.len() == t.len(),
        forall|i: int| 0 <= i < s.len() ==> #[trigger] f(s[i]) <= g(t[i]),
    ensures
        sum_of(s, f) <= sum_of(t, g),
    decreases s.len(),
{
    if s.len() > 0 {
        lemma_sum_bounded(s.drop_last(), f, t.drop_last(), g);
        assert(f(s[s.len() - 1]) <= g(t[s.len() - 1]));
    }
}

} // verus!
