//! Stable ordering of listings, as `slice::sort_by` orders them.
use vstd::prelude::*;
use crate::text::text_order;

verus! {

/// Where a stable insertion puts `x` into the ordered `s`: before the first
/// element that `x` is strictly less than.
pub open spec fn insert_pos<T>(s: Seq<T>, x: T, lt: spec_fn(T, T) -> bool) -> nat
    decreases s.len(),
{
    if s.len() == 0 {
        0
    } else if lt(x, s[0]) {
        0
    } else {
        1 + insert_pos(s.drop_first(), x, lt)
    }
}

/// `s` with `x` inserted after every element it is not less than.
pub open spec fn insert_stable<T>(s: Seq<T>, x: T, lt: spec_fn(T, T) -> bool) -> Seq<T> {
    s.insert(insert_pos(s, x, lt) as int, x)
}

/// `s` stably sorted by `lt`: equal elements keep their order.
pub open spec fn stable_sort<T>(s: Seq<T>, lt: spec_fn(T, T) -> bool) -> Seq<T>
    decreases s.len(),
{
    if s.len() == 0 {
        s
    } else {
        insert_stable(stable_sort(s.drop_last(), lt), s.last(), lt)
    }
}

/// The insertion position is the first index whose element is greater than `x`.
pub proof fn lemma_insert_pos<T>(s: Seq<T>, x: T, lt: spec_fn(T, T) -> bool, j: int)
    requires
        0 <= j <= s.len(),
        forall|k: int| 0 <= k < j ==> !lt(x, #[trigger] s[k]),
        j == s.len() || lt(x, s[j]),
    ensures
        insert_pos(s, x, lt) == j,
    decreases j,
{
    if j > 0 {
        assert forall|k: int| 0 <= k < j - 1 implies !lt(x, #[trigger] s.drop_first()[k]) by {
            assert(s.drop_first()[k] == s[k + 1]);
        }
        if j < s.len() {
            assert(s.drop_first()[j - 1] == s[j]);
        }
        assert(!lt(x, s[0]));
        lemma_insert_pos(s.drop_first(), x, lt, j - 1);
    }
}

/// The step of a stable sort over a growing prefix.
pub proof fn lemma_sort_step<T>(s: Seq<T>, lt: spec_fn(T, T) -> bool, i: int)
    requires
        0 <= i < s.len(),
    ensures
        stable_sort(s.take(i + 1), lt) == insert_stable(stable_sort(s.take(i), lt), s[i], lt),
{
    assert(s.take(i + 1).drop_last() =~= s.take(i));
    assert(s.take(i + 1).last() == s[i]);
}

/// A stable sort keeps the elements: the result is a permutation.
pub proof fn lemma_sort_permutes<T>(s: Seq<T>, lt: spec_fn(T, T) -> bool)
    ensures
        stable_sort(s, lt).to_multiset() == s.to_multiset(),
        stable_sort(s, lt).len() == s.len(),
    decreases s.len(),
{
    broadcast use vstd::seq_lib::group_to_multiset_ensures;
    if s.len() > 0 {
        lemma_sort_permutes(s.drop_last(), lt);
        let t = stable_sort(s.drop_last(), lt);
        lemma_insert_pos_bound(t, s.last(), lt);
        let p = insert_pos(t, s.last(), lt) as int;
        vstd::seq_lib::lemma_seq_union_to_multiset_commutative(t.take(p), t.skip(p));
        assert(t.insert(p, s.last()) =~= t.take(p) + seq![s.last()] + t.skip(p));
        assert(t =~= t.take(p) + t.skip(p));
        vstd::seq_lib::lemma_multiset_commutative(t.take(p) + seq![s.last()], t.skip(p));
        vstd::seq_lib::lemma_multiset_commutative(t.take(p), seq![s.last()]);
        vstd::seq_lib::lemma_multiset_commutative(t.take(p), t.skip(p));
        assert(s =~= s.drop_last().push(s.last()));
    }
}

/// The insertion position lies within the sequence.
pub proof fn lemma_insert_pos_bound<T>(s: Seq<T>, x: T, lt: spec_fn(T, T) -> bool)
    ensures
        insert_pos(s, x, lt) <= s.len(),
    decreases s.len(),
{
    if s.len() > 0 && !lt(x, s[0]) {
        lemma_insert_pos_bound(s.drop_first(), x, lt);
    }
}

/// No element of `s` comes after one that is strictly less than it.
pub open spec fn ordered_by<T>(s: Seq<T>, lt: spec_fn(T, T) -> bool) -> bool {
    forall|i: int, j: int| 0 <= i < j < s.len() ==> !lt(#[trigger] s[j], #[trigger] s[i])
}

/// `lt` is transitive.
pub open spec fn transitive<T>(lt: spec_fn(T, T) -> bool) -> bool {
    forall|a: T, b: T, c: T| #[trigger] lt(a, b) && #[trigger] lt(b, c) ==> lt(a, c)
}

/// Nothing is less than itself.
pub open spec fn irreflexive<T>(lt: spec_fn(T, T) -> bool) -> bool {
    forall|a: T| !#[trigger] lt(a, a)
}

/// A stable insertion into an ordered sequence keeps it ordered.
pub proof fn lemma_insert_ordered<T>(s: Seq<T>, x: T, lt: spec_fn(T, T) -> bool)
    requires
        ordered_by(s, lt),
        transitive(lt),
        irreflexive(lt),
    ensures
        ordered_by(insert_stable(s, x, lt), lt),
{
    lemma_insert_pos_bound(s, x, lt);
    let p = insert_pos(s, x, lt) as int;
    lemma_insert_pos_facts(s, x, lt);
    let t = insert_stable(s, x, lt);
    assert forall|i: int, j: int| 0 <= i < j < t.len() implies !lt(#[trigger] t[j], #[trigger] t[i]) by {
        if j < p {
            assert(t[i] == s[i] && t[j] == s[j]);
        } else if j == p {
            assert(t[j] == x && t[i] == s[i]);
        } else if i == p {
            assert(t[i] == x && t[j] == s[j - 1]);
            assert(lt(x, s[p]));
            if lt(s[j - 1], x) {
                assert(lt(s[j - 1], s[p]));
                if j - 1 == p {
                    assert(!lt(s[p], s[p]));
                } else {
                    assert(!lt(s[j - 1], s[p]));
                }
            }
        } else if i < p {
            assert(t[i] == s[i] && t[j] == s[j - 1]);
        } else {
            assert(t[i] == s[i - 1] && t[j] == s[j - 1]);
        }
    }
}

/// What the insertion position says: `x` is less than no element before it,
/// and less than the element at it, if any.
pub proof fn lemma_insert_pos_facts<T>(s: Seq<T>, x: T, lt: spec_fn(T, T) -> bool)
    ensures
        forall|k: int| 0 <= k < insert_pos(s, x, lt) ==> !lt(x, #[trigger] s[k]),
        insert_pos(s, x, lt) < s.len() ==> lt(x, s[insert_pos(s, x, lt) as int]),
    decreases s.len(),
{
    lemma_insert_pos_bound(s, x, lt);
    if s.len() > 0 && !lt(x, s[0]) {
        lemma_insert_pos_facts(s.drop_first(), x, lt);
        assert forall|k: int| 0 <= k < insert_pos(s, x, lt) implies !lt(x, #[trigger] s[k]) by {
            if k > 0 {
                assert(s[k] == s.drop_first()[k - 1]);
            }
        }
        if insert_pos(s, x, lt) < s.len() {
            assert(s[insert_pos(s, x, lt) as int] == s.drop_first()[insert_pos(s.drop_first(), x, lt) as int]);
        }
    }
}

/// A stable sort by a transitive order is ordered.
pub proof fn lemma_sort_ordered<T>(s: Seq<T>, lt: spec_fn(T, T) -> bool)
    requires
        transitive(lt),
        irreflexive(lt),
    ensures
        ordered_by(stable_sort(s, lt), lt),
    decreases s.len(),
{
    if s.len() > 0 {
        lemma_sort_ordered(s.drop_last(), lt);
        lemma_insert_ordered(stable_sort(s.drop_last(), lt), s.last(), lt);
    }
}

/// Order of optional texts: none first, then by text.
pub open spec fn opt_text_order(a: Option<Seq<char>>, b: Option<Seq<char>>) -> int {
    match (a, b) {
        (None, None) => 0,
        (None, Some(_)) => -1,
        (Some(_), None) => 1,
        (Some(x), Some(y)) => text_order(x, y),
    }
}

} // verus!
