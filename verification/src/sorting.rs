//! Stable insertion sorting, specified as the insertion sort it performs,
//! with its laws: the result is ordered and is a permutation of the input.
use vstd::prelude::*;

verus! {

/// `s` with `x` inserted after every element that `x` does not sort before.
pub open spec fn insert_sorted<T>(s: Seq<T>, x: T, le: spec_fn(T, T) -> bool) -> Seq<T>
    decreases s.len(),
{
    if s.len() == 0 {
        seq![x]
    } else if le(s.last(), x) {
        s.push(x)
    } else {
        insert_sorted(s.drop_last(), x, le).push(s.last())
    }
}

/// `s` sorted stably by `le`: each element in turn is inserted after the
/// elements it does not sort before.
pub open spec fn sort_stable<T>(s: Seq<T>, le: spec_fn(T, T) -> bool) -> Seq<T>
    decreases s.len(),
{
    if s.len() == 0 {
        seq![]
    } else {
        insert_sorted(sort_stable(s.drop_last(), le), s.last(), le)
    }
}

/// Every element sorts no later than every element after it.
pub open spec fn sorted_by<T>(s: Seq<T>, le: spec_fn(T, T) -> bool) -> bool {
    forall|i: int, j: int| 0 <= i < j < s.len() ==> le(#[trigger] s[i], #[trigger] s[j])
}

/// `le` is a total preorder.
pub open spec fn total_preorder<T>(le: spec_fn(T, T) -> bool) -> bool {
    &&& forall|a: T, b: T| #[trigger] le(a, b) || le(b, a)
    &&& forall|a: T, b: T, c: T| #[trigger] le(a, b) && #[trigger] le(b, c) ==> le(a, c)
}

/// Inserting at the position after which everything sorts after `x`.
pub proof fn lemma_insert_sorted_at<T>(s: Seq<T>, x: T, le: spec_fn(T, T) -> bool, j: int)
    requires
        0 <= j <= s.len(),
        j > 0 ==> le(s[j - 1], x),
        forall|k: int| j <= k < s.len() ==> !le(#[trigger] s[k], x),
    ensures
        insert_sorted(s, x, le) == s.insert(j, x),
    decreases s.len(),
{
    if s.len() == 0 {
        assert(s.insert(j, x) =~= seq![x]);
    } else if j == s.len() {
        assert(s.insert(j, x) =~= s.push(x));
    } else {
        assert(!le(s[s.len() - 1], x));
        lemma_insert_sorted_at(s.drop_last(), x, le, j);
        assert(s.drop_last().insert(j, x).push(s.last()) =~= s.insert(j, x));
    }
}

/// Inserting keeps the elements: one more `x`.
pub proof fn lemma_insert_sorted_multiset<T>(s: Seq<T>, x: T, le: spec_fn(T, T) -> bool)
    ensures
        insert_sorted(s, x, le).to_multiset() == s.to_multiset().insert(x),
    decreases s.len(),
{
    broadcast use vstd::seq_lib::group_to_multiset_ensures;

    if s.len() == 0 {
        assert(seq![x] =~= Seq::<T>::empty().push(x));
    } else if le(s.last(), x) {
    } else {
        lemma_insert_sorted_multiset(s.drop_last(), x, le);
        assert(s =~= s.drop_last().push(s.last()));
        assert(s.to_multiset() == s.drop_last().to_multiset().insert(s.last()));
    }
}

/// Sorting keeps the elements: the result is a permutation of the input.
pub proof fn lemma_sort_stable_permutation<T>(s: Seq<T>, le: spec_fn(T, T) -> bool)
    ensures
        sort_stable(s, le).to_multiset() == s.to_multiset(),
    decreases s.len(),
{
    broadcast use vstd::seq_lib::group_to_multiset_ensures;

    if s.len() > 0 {
        lemma_sort_stable_permutation(s.drop_last(), le);
        lemma_insert_sorted_multiset(sort_stable(s.drop_last(), le), s.last(), le);
        assert(s =~= s.drop_last().push(s.last()));
    }
}

/// Inserting into an ordered sequence keeps it ordered.
pub proof fn lemma_insert_sorted_sorted<T>(s: Seq<T>, x: T, le: spec_fn(T, T) -> bool)
    requires
        total_preorder(le),
        sorted_by(s, le),
    ensures
        sorted_by(insert_sorted(s, x, le), le),
        insert_sorted(s, x, le).len() == s.len() + 1,
        forall|k: int|
            0 <= k < insert_sorted(s, x, le).len() ==> #[trigger] insert_sorted(s, x, le)[k] == x
                || s.contains(insert_sorted(s, x, le)[k]),
    decreases s.len(),
{
    if s.len() == 0 {
    } else if le(s.last(), x) {
        let r = s.push(x);
        assert forall|i: int, j: int| 0 <= i < j < r.len() implies le(#[trigger] r[i], #[trigger] r[j]) by {
            if j == s.len() {
                if i < s.len() - 1 {
                    assert(le(s[i], s[s.len() - 1]));
                }
            }
        }
        assert forall|k: int| 0 <= k < r.len() implies #[trigger] r[k] == x || s.contains(r[k]) by {
            if k < s.len() {
                assert(r[k] == s[k]);
            }
        }
    } else {
        let d = s.drop_last();
        assert(sorted_by(d, le));
        lemma_insert_sorted_sorted(d, x, le);
        let m = insert_sorted(d, x, le);
        let r = m.push(s.last());
        assert(le(x, s.last()));
        assert forall|k: int| 0 <= k < m.len() implies le(#[trigger] m[k], s.last()) by {
            if m[k] != x {
                assert(d.contains(m[k]));
                let t = choose|t: int| 0 <= t < d.len() && d[t] == m[k];
                assert(le(s[t], s[s.len() - 1]));
            }
        }
        assert forall|i: int, j: int| 0 <= i < j < r.len() implies le(#[trigger] r[i], #[trigger] r[j]) by {
            if j == m.len() {
                assert(le(m[i], s.last()));
            } else {
                assert(le(m[i], m[j]));
            }
        }
        assert forall|k: int| 0 <= k < r.len() implies #[trigger] r[k] == x || s.contains(r[k]) by {
            if k < m.len() {
                if r[k] != x {
                    assert(d.contains(m[k]));
                    let t = choose|t: int| 0 <= t < d.len() && d[t] == m[k];
                    assert(s[t] == d[t]);
                }
            } else {
                assert(s[s.len() - 1] == s.last());
            }
        }
    }
}

/// Sorting by a total preorder gives an ordered sequence.
pub proof fn lemma_sort_stable_sorted<T>(s: Seq<T>, le: spec_fn(T, T) -> bool)
    requires
        total_preorder(le),
    ensures
        sorted_by(sort_stable(s, le), le),
    decreases s.len(),
{
    if s.len() > 0 {
        lemma_sort_stable_sorted(s.drop_last(), le);
        lemma_insert_sorted_sorted(sort_stable(s.drop_last(), le), s.last(), le);
    }
}

/// Sorting the first `k + 1` elements inserts the `k`-th into the sorted
/// first `k`.
pub proof fn lemma_sort_stable_step<T>(s: Seq<T>, le: spec_fn(T, T) -> bool, k: int)
    requires
        0 <= k < s.len(),
    ensures
        sort_stable(s.take(k + 1), le) == insert_sorted(sort_stable(s.take(k), le), s[k], le),
{
    assert(s.take(k + 1).drop_last() =~= s.take(k));
}

/// No two elements of `s` have the same key.
pub open spec fn keys_distinct<T, K>(s: Seq<T>, key: spec_fn(T) -> K) -> bool {
    forall|i: int, j: int| 0 <= i < j < s.len() ==> key(#[trigger] s[i]) != key(#[trigger] s[j])
}

/// Inserting keeps the elements: each is `x` or one of `s`.
proof fn lemma_insert_sorted_members<T>(s: Seq<T>, x: T, le: spec_fn(T, T) -> bool)
    ensures
        insert_sorted(s, x, le).len() == s.len() + 1,
        forall|k: int|
            0 <= k < insert_sorted(s, x, le).len() ==> #[trigger] insert_sorted(s, x, le)[k] == x
                || s.contains(insert_sorted(s, x, le)[k]),
    decreases s.len(),
{
    if s.len() > 0 && !le(s.last(), x) {
        let d = s.drop_last();
        lemma_insert_sorted_members(d, x, le);
        let m = insert_sorted(d, x, le);
        let r = m.push(s.last());
        assert forall|k: int| 0 <= k < r.len() implies #[trigger] r[k] == x || s.contains(r[k]) by {
            if k < m.len() {
                if r[k] != x {
                    let t = choose|t: int| 0 <= t < d.len() && d[t] == m[k];
                    assert(s[t] == d[t]);
                }
            } else {
                assert(s[s.len() - 1] == r[k]);
            }
        }
    } else if s.len() > 0 {
        let r = s.push(x);
        assert forall|k: int| 0 <= k < r.len() implies #[trigger] r[k] == x || s.contains(r[k]) by {
            if k < s.len() {
                assert(r[k] == s[k]);
            }
        }
    }
}

/// Sorting keeps the elements: each is one of `s`.
proof fn lemma_sort_stable_members<T>(s: Seq<T>, le: spec_fn(T, T) -> bool)
    ensures
        sort_stable(s, le).len() == s.len(),
        forall|k: int| 0 <= k < sort_stable(s, le).len() ==> s.contains(#[trigger] sort_stable(s, le)[k]),
    decreases s.len(),
{
    if s.len() > 0 {
        let d = s.drop_last();
        lemma_sort_stable_members(d, le);
        let p = sort_stable(d, le);
        lemma_insert_sorted_members(p, s.last(), le);
        let r = sort_stable(s, le);
        assert forall|k: int| 0 <= k < r.len() implies s.contains(#[trigger] r[k]) by {
            if r[k] == s.last() {
                assert(s[s.len() - 1] == r[k]);
            } else {
                let t = choose|t: int| 0 <= t < p.len() && p[t] == r[k];
                let u = choose|u: int| 0 <= u < d.len() && d[u] == p[t];
                assert(s[u] == d[u]);
            }
        }
    }
}

/// Inserting an element whose key no element has keeps the keys distinct.
proof fn lemma_insert_sorted_keys_distinct<T, K>(
    s: Seq<T>,
    x: T,
    le: spec_fn(T, T) -> bool,
    key: spec_fn(T) -> K,
)
    requires
        keys_distinct(s, key),
        forall|i: int| 0 <= i < s.len() ==> key(#[trigger] s[i]) != key(x),
    ensures
        keys_distinct(insert_sorted(s, x, le), key),
    decreases s.len(),
{
    if s.len() == 0 {
    } else if le(s.last(), x) {
        let r = s.push(x);
        assert forall|i: int, j: int| 0 <= i < j < r.len() implies key(#[trigger] r[i]) != key(
            #[trigger] r[j],
        ) by {
            assert(r[i] == s[i]);
            if j < s.len() {
                assert(r[j] == s[j]);
            }
        }
    } else {
        let d = s.drop_last();
        let l = s.last();
        assert forall|i: int, j: int| 0 <= i < j < d.len() implies key(#[trigger] d[i]) != key(
            #[trigger] d[j],
        ) by {
            assert(d[i] == s[i] && d[j] == s[j]);
        }
        assert forall|i: int| 0 <= i < d.len() implies key(#[trigger] d[i]) != key(x) by {
            assert(d[i] == s[i]);
        }
        lemma_insert_sorted_keys_distinct(d, x, le, key);
        lemma_insert_sorted_members(d, x, le);
        let m = insert_sorted(d, x, le);
        let r = m.push(l);
        assert forall|i: int, j: int| 0 <= i < j < r.len() implies key(#[trigger] r[i]) != key(
            #[trigger] r[j],
        ) by {
            assert(r[i] == m[i]);
            if j < m.len() {
                assert(r[j] == m[j]);
            } else {
                assert(r[j] == l);
                assert(s[s.len() - 1] == l);
                if m[i] != x {
                    let t = choose|t: int| 0 <= t < d.len() && d[t] == m[i];
                    assert(s[t] == d[t]);
                }
            }
        }
    }
}

/// Sorting keeps distinct keys distinct.
pub proof fn lemma_sort_stable_keys_distinct<T, K>(
    s: Seq<T>,
    le: spec_fn(T, T) -> bool,
    key: spec_fn(T) -> K,
)
    requires
        keys_distinct(s, key),
    ensures
        keys_distinct(sort_stable(s, le), key),
    decreases s.len(),
{
    if s.len() > 0 {
        let d = s.drop_last();
        assert forall|i: int, j: int| 0 <= i < j < d.len() implies key(#[trigger] d[i]) != key(
            #[trigger] d[j],
        ) by {
            assert(d[i] == s[i] && d[j] == s[j]);
        }
        lemma_sort_stable_keys_distinct(d, le, key);
        lemma_sort_stable_members(d, le);
        let p = sort_stable(d, le);
        assert forall|i: int| 0 <= i < p.len() implies key(#[trigger] p[i]) != key(s.last()) by {
            let t = choose|t: int| 0 <= t < d.len() && d[t] == p[i];
            assert(s[t] == d[t]);
            assert(s[s.len() - 1] == s.last());
        }
        lemma_insert_sorted_keys_distinct(p, s.last(), le, key);
    }
}

} // verus!
