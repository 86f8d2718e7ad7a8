//! Searching sequences: the first element that satisfies a predicate;
//! rearrangements and what they keep.
use vstd::prelude::*;

verus! {

/// Position of the first element of `s` satisfying `p`.
pub open spec fn first_where<T>(s: Seq<T>, p: spec_fn(T) -> bool) -> Option<int>
    decreases s.len(),
{
    if s.len() == 0 {
        None
    } else {
        match first_where(s.drop_last(), p) {
            Some(i) => Some(i),
            None => if p(s.last()) {
                Some(s.len() - 1)
            } else {
                None
            },
        }
    }
}

/// What a scan up to `i` that found nothing, then a hit at `i`, knows of
/// `first_where`.
pub proof fn lemma_first_where_at<T>(s: Seq<T>, p: spec_fn(T) -> bool, i: int)
    requires
        0 <= i <= s.len(),
        forall|j: int| 0 <= j < i ==> !p(#[trigger] s[j]),
    ensures
        first_where(s.subrange(0, i), p) is None,
        i < s.len() && p(s[i]) ==> first_where(s, p) == Some(i),
        i == s.len() ==> first_where(s, p) is None,
    decreases i,
{
    if i > 0 {
        assert(s.subrange(0, i).drop_last() =~= s.subrange(0, i - 1));
        lemma_first_where_at(s, p, i - 1);
    }
    if i < s.len() && p(s[i]) {
        assert(s.subrange(0, i + 1).drop_last() =~= s.subrange(0, i));
        lemma_first_where_extend(s, p, i + 1);
    }
    if i == s.len() {
        assert(s.subrange(0, i) =~= s);
    }
}

pub proof fn lemma_first_where_extend<T>(s: Seq<T>, p: spec_fn(T) -> bool, i: int)
    requires
        0 <= i <= s.len(),
        first_where(s.subrange(0, i), p) is Some,
    ensures
        first_where(s, p) == first_where(s.subrange(0, i), p),
    decreases s.len() - i,
{
    if i < s.len() {
        assert(s.subrange(0, i + 1).drop_last() =~= s.subrange(0, i));
        lemma_first_where_extend(s, p, i + 1);
    } else {
        assert(s.subrange(0, i) =~= s);
    }
}

/// What `first_where` finding `i` says of `s`: `i` is in range, its element
/// satisfies `p`, and none before it does.
pub proof fn lemma_first_where_found<T>(s: Seq<T>, p: spec_fn(T) -> bool, i: int)
    requires
        first_where(s, p) == Some(i),
    ensures
        0 <= i < s.len(),
        p(s[i]),
        forall|j: int| 0 <= j < i ==> !p(#[trigger] s[j]),
    decreases s.len(),
{
    match first_where(s.drop_last(), p) {
        Some(k) => {
            lemma_first_where_found(s.drop_last(), p, k);
            assert forall|j: int| 0 <= j < i implies !p(#[trigger] s[j]) by {
                assert(s[j] == s.drop_last()[j]);
            }
        },
        None => {
            assert forall|j: int| 0 <= j < i implies !p(#[trigger] s[j]) by {
                assert(s[j] == s.drop_last()[j]);
                lemma_first_where_none(s.drop_last(), p, j);
            }
        },
    }
}

proof fn lemma_first_where_none<T>(s: Seq<T>, p: spec_fn(T) -> bool, j: int)
    requires
        first_where(s, p) is None,
        0 <= j < s.len(),
    ensures
        !p(s[j]),
    decreases s.len(),
{
    if j < s.len() - 1 {
        assert(s[j] == s.drop_last()[j]);
        lemma_first_where_none(s.drop_last(), p, j);
    }
}

/// Replacing the first element satisfying `p` by another that satisfies it
/// leaves the first such position where it was.
pub proof fn lemma_first_where_replace<T>(s: Seq<T>, p: spec_fn(T) -> bool, i: int, v: T)
    requires
        first_where(s, p) == Some(i),
        p(v),
    ensures
        first_where(s.update(i, v), p) == Some(i),
{
    lemma_first_where_found(s, p, i);
    let t = s.update(i, v);
    assert forall|j: int| 0 <= j < i implies !p(#[trigger] t[j]) by {
        assert(t[j] == s[j]);
    }
    lemma_first_where_at(t, p, i);
}

/// Rearranging a sequence rearranges the images of its elements.
pub proof fn lemma_map_values_multiset<A, B>(a: Seq<A>, b: Seq<A>, f: spec_fn(A) -> B)
    requires
        a.to_multiset() == b.to_multiset(),
    ensures
        a.map_values(f).to_multiset() == b.map_values(f).to_multiset(),
    decreases a.len(),
{
    broadcast use vstd::seq_lib::group_to_multiset_ensures;
    if a.len() == 0 {
        assert(b.len() == 0) by {
            assert(a.to_multiset().len() == 0);
        }
        assert(a.map_values(f) =~= Seq::<B>::empty());
        assert(b.map_values(f) =~= Seq::<B>::empty());
    } else {
        let x = a.last();
        let n = a.len() - 1;
        assert(a.remove(n) =~= a.drop_last());
        assert(a.to_multiset().count(x) > 0) by {
            assert(a.contains(x)) by { assert(a[n] == x); }
        }
        assert(b.contains(x));
        let j = choose|j: int| 0 <= j < b.len() && b[j] == x;
        assert(a.drop_last().to_multiset() =~= b.remove(j).to_multiset());
        lemma_map_values_multiset(a.drop_last(), b.remove(j), f);
        assert(a.map_values(f) =~= a.drop_last().map_values(f).push(f(x)));
        assert(b.map_values(f).remove(j) =~= b.remove(j).map_values(f));
        let mb = b.map_values(f).to_multiset();
        assert(b.map_values(f)[j] == f(x));
        assert(b.map_values(f).remove(j).to_multiset() == mb.remove(f(x)));
        assert(mb.count(f(x)) > 0) by {
            assert(b.map_values(f).contains(f(x)));
        }
        assert(mb =~= mb.remove(f(x)).insert(f(x)));
    }
}

} // verus!
