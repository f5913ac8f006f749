//! Summation over sequences: the shared machinery behind the aggregation
//! totals. `sum_by` folds an integer-valued measure over a sequence; the
//! lemmas give the stepping, bounding and permutation facts the exec sums
//! and the determinism law rest on.
use vstd::prelude::*;

verus! {

/// The sum of `f` over the elements of `s`.
pub open spec fn sum_by<T>(s: Seq<T>, f: spec_fn(T) -> int) -> int
    decreases s.len(),
{
    if s.len() == 0 {
        0
    } else {
        sum_by(s.drop_last(), f) + f(s.last())
    }
}

/// Extending a prefix by one element adds that element's measure.
pub proof fn lemma_sum_by_take_step<T>(s: Seq<T>, f: spec_fn(T) -> int, i: int)
    requires
        0 <= i < s.len(),
    ensures
        sum_by(s.take(i + 1), f) == sum_by(s.take(i), f) + f(s[i]),
{
    assert(s.take(i + 1).drop_last() =~= s.take(i));
    assert(s.take(i + 1).last() == s[i]);
}

/// The whole sequence is its own full prefix.
pub proof fn lemma_sum_by_take_all<T>(s: Seq<T>, f: spec_fn(T) -> int)
    ensures
        sum_by(s.take(s.len() as int), f) == sum_by(s, f),
{
    assert(s.take(s.len() as int) =~= s);
}

/// A sum whose every term lies within `±g` lies within `±(sum of g)`.
pub proof fn lemma_sum_by_bounds<T>(s: Seq<T>, f: spec_fn(T) -> int, g: spec_fn(T) -> int)
    requires
        forall|i: int| 0 <= i < s.len() ==> -g(s[i]) <= #[trigger] f(s[i]) <= g(s[i]),
    ensures
        -sum_by(s, g) <= sum_by(s, f) <= sum_by(s, g),
    decreases s.len(),
{
    if s.len() > 0 {
        assert(forall|i: int|
            0 <= i < s.drop_last().len() ==> s.drop_last()[i] == s[i]);
        lemma_sum_by_bounds(s.drop_last(), f, g);
        assert(s.last() == s[s.len() - 1]);
    }
}

/// A sum of nonnegative terms is nonnegative.
pub proof fn lemma_sum_by_nonneg<T>(s: Seq<T>, g: spec_fn(T) -> int)
    requires
        forall|i: int| 0 <= i < s.len() ==> #[trigger] g(s[i]) >= 0,
    ensures
        sum_by(s, g) >= 0,
{
    lemma_sum_by_bounds(s, g, g);
}

/// With nonnegative terms, a prefix sum never exceeds the full sum.
pub proof fn lemma_sum_by_take_bound<T>(s: Seq<T>, g: spec_fn(T) -> int, i: int)
    requires
        0 <= i <= s.len(),
        forall|j: int| 0 <= j < s.len() ==> #[trigger] g(s[j]) >= 0,
    ensures
        sum_by(s.take(i), g) <= sum_by(s, g),
    decreases s.len() - i,
{
    if i == s.len() {
        lemma_sum_by_take_all(s, g);
    } else {
        lemma_sum_by_take_step(s, g, i);
        lemma_sum_by_take_bound(s, g, i + 1);
    }
}

/// With nonnegative terms, each single term is at most the full sum.
pub proof fn lemma_sum_by_element_bound<T>(s: Seq<T>, g: spec_fn(T) -> int, i: int)
    requires
        0 <= i < s.len(),
        forall|j: int| 0 <= j < s.len() ==> #[trigger] g(s[j]) >= 0,
    ensures
        g(s[i]) <= sum_by(s, g),
{
    lemma_sum_by_take_step(s, g, i);
    assert(forall|j: int| 0 <= j < s.take(i).len() ==> s.take(i)[j] == s[j]);
    lemma_sum_by_nonneg(s.take(i), g);
    lemma_sum_by_take_bound(s, g, i + 1);
}

/// Removing one element takes exactly its measure out of the sum.
pub proof fn lemma_sum_by_remove<T>(s: Seq<T>, f: spec_fn(T) -> int, i: int)
    requires
        0 <= i < s.len(),
    ensures
        sum_by(s.remove(i), f) == sum_by(s, f) - f(s[i]),
    decreases s.len(),
{
    if i == s.len() - 1 {
        assert(s.remove(i) =~= s.drop_last());
    } else {
        assert(s.remove(i).drop_last() =~= s.drop_last().remove(i));
        assert(s.remove(i).last() == s.last());
        lemma_sum_by_remove(s.drop_last(), f, i);
        assert(s.drop_last()[i] == s[i]);
    }
}

/// Two sequences holding the same elements the same number of times have the
/// same sum, whatever their orders.
pub proof fn lemma_sum_by_permutation<T>(s1: Seq<T>, s2: Seq<T>, f: spec_fn(T) -> int)
    requires
        s1.to_multiset() == s2.to_multiset(),
    ensures
        sum_by(s1, f) == sum_by(s2, f),
    decreases s1.len(),
{
    s1.to_multiset_ensures();
    s2.to_multiset_ensures();
    if s1.len() > 0 {
        let x = s1.last();
        assert(s1.contains(x));
        assert(s2.to_multiset().count(x) > 0);
        assert(s2.contains(x));
        let j = choose|j: int| 0 <= j < s2.len() && s2[j] == x;
        assert(s1.remove(s1.len() - 1).to_multiset() =~= s1.to_multiset().remove(x));
        assert(s2.remove(j).to_multiset() =~= s2.to_multiset().remove(x));
        assert(s1.remove(s1.len() - 1) =~= s1.drop_last());
        lemma_sum_by_remove(s2, f, j);
        lemma_sum_by_permutation(s1.drop_last(), s2.remove(j), f);
    }
}

/// Mapping two reorderings of the same elements yields two reorderings of
/// the same images.
pub proof fn lemma_map_values_permutation<T, U>(s1: Seq<T>, s2: Seq<T>, f: spec_fn(T) -> U)
    requires
        s1.to_multiset() == s2.to_multiset(),
    ensures
        s1.map_values(f).to_multiset() == s2.map_values(f).to_multiset(),
    decreases s1.len(),
{
    s1.to_multiset_ensures();
    s2.to_multiset_ensures();
    s1.map_values(f).to_multiset_ensures();
    s2.map_values(f).to_multiset_ensures();
    if s1.len() > 0 {
        let x = s1.last();
        assert(s1.contains(x));
        assert(s2.to_multiset().count(x) > 0);
        assert(s2.contains(x));
        let j = choose|j: int| 0 <= j < s2.len() && s2[j] == x;
        assert(s1.remove(s1.len() - 1).to_multiset() =~= s1.to_multiset().remove(x));
        assert(s2.remove(j).to_multiset() =~= s2.to_multiset().remove(x));
        assert(s1.remove(s1.len() - 1) =~= s1.drop_last());
        lemma_map_values_permutation(s1.drop_last(), s2.remove(j), f);
        assert(s1.drop_last().map_values(f) =~= s1.map_values(f).remove(s1.len() - 1));
        assert(s2.remove(j).map_values(f) =~= s2.map_values(f).remove(j));
        assert(s1.map_values(f).remove(s1.len() - 1).to_multiset() =~= s1.map_values(
            f,
        ).to_multiset().remove(f(x)));
        assert(s2.map_values(f).remove(j).to_multiset() =~= s2.map_values(
            f,
        ).to_multiset().remove(f(x)));
        assert(s1.map_values(f).to_multiset().count(f(x)) > 0);
        assert(s2.map_values(f).to_multiset().count(f(x)) > 0);
        assert(s1.map_values(f).to_multiset() =~= s2.map_values(f).to_multiset()) by {
            broadcast use vstd::multiset::group_multiset_axioms;

            let m1 = s1.map_values(f).to_multiset();
            let m2 = s2.map_values(f).to_multiset();
            assert(m1.remove(f(x)) =~= m2.remove(f(x)));
            assert forall|e: U| true implies m1.count(e) == m2.count(e) by {
                if e == f(x) {
                    assert(m1.remove(f(x)).count(e) == m1.count(e) - 1);
                    assert(m2.remove(f(x)).count(e) == m2.count(e) - 1);
                } else {
                    assert(m1.remove(f(x)).count(e) == m1.count(e));
                    assert(m2.remove(f(x)).count(e) == m2.count(e));
                }
            }
        }
    } else {
        assert(s1.to_multiset().len() == 0);
        assert(s2.len() == 0);
        assert(s1.map_values(f) =~= s2.map_values(f));
    }
}

/// A reordering of a sequence with pairwise-distinct measures again has
/// pairwise-distinct measures.
pub proof fn lemma_distinct_permutation<T, U>(p: Seq<T>, q: Seq<T>, f: spec_fn(T) -> U)
    requires
        p.to_multiset() == q.to_multiset(),
        forall|i: int, j: int| 0 <= i < j < p.len() ==> f(p[i]) != f(p[j]),
    ensures
        forall|i: int, j: int| 0 <= i < j < q.len() ==> f(q[i]) != f(q[j]),
    decreases q.len(),
{
    p.to_multiset_ensures();
    q.to_multiset_ensures();
    if q.len() > 0 {
        let x = q.last();
        assert(q.contains(x));
        assert(p.to_multiset().count(x) > 0);
        assert(p.contains(x));
        let i = choose|i: int| 0 <= i < p.len() && p[i] == x;
        let p_rest = p.remove(i);
        p_rest.to_multiset_ensures();
        q.drop_last().to_multiset_ensures();
        assert(p_rest.to_multiset() =~= p.to_multiset().remove(x));
        assert(q.remove(q.len() - 1).to_multiset() =~= q.to_multiset().remove(x));
        assert(q.remove(q.len() - 1) =~= q.drop_last());
        assert(forall|a: int, b: int| 0 <= a < b < p_rest.len() ==> f(p_rest[a]) != f(p_rest[b])) by {
            assert(forall|a: int|
                0 <= a < p_rest.len() ==> p_rest[a] == (if a < i {
                    p[a]
                } else {
                    p[a + 1]
                }));
        }
        lemma_distinct_permutation(p_rest, q.drop_last(), f);
        assert forall|a: int, b: int| 0 <= a < b < q.len() implies f(q[a]) != f(q[b]) by {
            if b == q.len() - 1 {
                assert(q.drop_last()[a] == q[a]);
                assert(q.drop_last().contains(q[a]));
                assert(p_rest.to_multiset().count(q[a]) > 0);
                assert(p_rest.contains(q[a]));
                let k = choose|k: int| 0 <= k < p_rest.len() && p_rest[k] == q[a];
                let kk: int = if k < i {
                    k
                } else {
                    k + 1
                };
                assert(p_rest[k] == p[kk]);
                assert(kk != i);
                assert(f(q[a]) == f(p[kk]));
                assert(f(q[b]) == f(p[i]));
                if kk < i {
                    assert(f(p[kk]) != f(p[i]));
                } else {
                    assert(f(p[i]) != f(p[kk]));
                }
            } else {
                assert(q.drop_last()[a] == q[a]);
                assert(q.drop_last()[b] == q[b]);
            }
        }
    }
}

} // verus!
