//! Stable sorting of keyed items, as `slice::sort_by_key` performs it.
//!
//! Items travel with their integer sort key; the result is specified by
//! insertion into an already sorted prefix, which fixes the order of items
//! whose keys are equal (earlier items stay first).

use vstd::prelude::*;

verus! {

/// Inserts `x` after every trailing item whose key is greater than its key.
pub open spec fn insert_keyed<T>(s: Seq<(T, u64)>, x: (T, u64)) -> Seq<(T, u64)>
    decreases s.len(),
{
    if s.len() == 0 || s.last().1 <= x.1 {
        s.push(x)
    } else {
        insert_keyed(s.drop_last(), x).push(s.last())
    }
}

/// The stable sort of `s` by key.
pub open spec fn sort_keyed<T>(s: Seq<(T, u64)>) -> Seq<(T, u64)>
    decreases s.len(),
{
    if s.len() == 0 {
        s
    } else {
        insert_keyed(sort_keyed(s.drop_last()), s.last())
    }
}

/// Keys are in non-decreasing order.
pub open spec fn keys_sorted<T>(s: Seq<(T, u64)>) -> bool {
    forall|i: int, j: int| 0 <= i <= j < s.len() ==> s[i].1 <= s[j].1
}

proof fn lemma_insert_keyed_split<T>(s: Seq<(T, u64)>, x: (T, u64), p: int)
    requires
        0 <= p <= s.len(),
        forall|k: int| p <= k < s.len() ==> s[k].1 > x.1,
    ensures
        insert_keyed(s, x) == insert_keyed(s.take(p), x) + s.skip(p),
    decreases s.len() - p,
{
    if p < s.len() {
        lemma_insert_keyed_split(s.drop_last(), x, p);
        assert(s.drop_last().take(p) == s.take(p));
        assert(insert_keyed(s.drop_last(), x) == insert_keyed(s.take(p), x) + s.drop_last().skip(
            p,
        ));
        assert((insert_keyed(s.take(p), x) + s.drop_last().skip(p)).push(s.last()) == insert_keyed(
            s.take(p),
            x,
        ) + s.skip(p));
    } else {
        assert(s.take(p) == s);
        assert(s.skip(p) =~= Seq::<(T, u64)>::empty());
    }
}

/// The sorted result contains the same items as the input, with the same multiplicities.
pub proof fn lemma_insert_keyed_multiset<T>(s: Seq<(T, u64)>, x: (T, u64))
    ensures
        insert_keyed(s, x).to_multiset() == s.to_multiset().insert(x),
        insert_keyed(s, x).len() == s.len() + 1,
    decreases s.len(),
{
    broadcast use vstd::seq_lib::group_to_multiset_ensures;

    if s.len() == 0 || s.last().1 <= x.1 {
    } else {
        lemma_insert_keyed_multiset(s.drop_last(), x);
        assert(s.drop_last().push(s.last()) == s);
        assert(s.to_multiset() == s.drop_last().to_multiset().insert(s.last()));
        assert(insert_keyed(s, x).to_multiset() =~= s.to_multiset().insert(x));
    }
}

/// Sorting keeps exactly the input's items.
pub proof fn lemma_sort_keyed_multiset<T>(s: Seq<(T, u64)>)
    ensures
        sort_keyed(s).to_multiset() == s.to_multiset(),
        sort_keyed(s).len() == s.len(),
    decreases s.len(),
{
    broadcast use vstd::seq_lib::group_to_multiset_ensures;

    if s.len() > 0 {
        lemma_sort_keyed_multiset(s.drop_last());
        lemma_insert_keyed_multiset(sort_keyed(s.drop_last()), s.last());
        assert(s.drop_last().push(s.last()) == s);
    }
}

/// Inserting into a sorted sequence keeps it sorted.
pub proof fn lemma_insert_keyed_sorted<T>(s: Seq<(T, u64)>, x: (T, u64))
    requires
        keys_sorted(s),
    ensures
        keys_sorted(insert_keyed(s, x)),
        forall|k: int|
            0 <= k < insert_keyed(s, x).len() ==> (insert_keyed(s, x)[k].1 == x.1 || exists|m: int|
                0 <= m < s.len() && s[m].1 == #[trigger] insert_keyed(s, x)[k].1),
    decreases s.len(),
{
    if s.len() == 0 || s.last().1 <= x.1 {
        assert forall|k: int|
            0 <= k < insert_keyed(s, x).len() implies (insert_keyed(s, x)[k].1 == x.1 || exists|
            m: int,
        | 0 <= m < s.len() && s[m].1 == #[trigger] insert_keyed(s, x)[k].1) by {
            if k < s.len() {
                assert(s[k].1 == insert_keyed(s, x)[k].1);
            }
        }
    } else {
        let t = s.drop_last();
        lemma_insert_keyed_sorted(t, x);
        let r = insert_keyed(t, x);
        assert forall|k: int| 0 <= k < r.len() implies r[k].1 <= s.last().1 by {
            if r[k].1 != x.1 {
                let m = choose|m: int| 0 <= m < t.len() && t[m].1 == r[k].1;
                assert(t[m] == s[m]);
            }
        }
        assert forall|k: int|
            0 <= k < insert_keyed(s, x).len() implies (insert_keyed(s, x)[k].1 == x.1 || exists|
            m: int,
        | 0 <= m < s.len() && s[m].1 == #[trigger] insert_keyed(s, x)[k].1) by {
            if k < r.len() {
                if r[k].1 != x.1 {
                    let m = choose|m: int| 0 <= m < t.len() && t[m].1 == r[k].1;
                    assert(t[m] == s[m]);
                    assert(insert_keyed(s, x)[k] == r[k]);
                }
            } else {
                assert(insert_keyed(s, x)[k] == s.last());
                assert(s[s.len() - 1] == s.last());
            }
        }
    }
}

/// The stable sort orders the keys.
pub proof fn lemma_sort_keyed_sorted<T>(s: Seq<(T, u64)>)
    ensures
        keys_sorted(sort_keyed(s)),
    decreases s.len(),
{
    if s.len() > 0 {
        lemma_sort_keyed_sorted(s.drop_last());
        lemma_insert_keyed_sorted(sort_keyed(s.drop_last()), s.last());
    }
}


/// Replaces each item by its image under `f`, keeping the keys.
pub open spec fn map_items<T, U>(s: Seq<(T, u64)>, f: spec_fn(T) -> U) -> Seq<(U, u64)> {
    s.map_values(|p: (T, u64)| (f(p.0), p.1))
}

/// Pairs every item with its key.
pub open spec fn keyed<U>(s: Seq<U>, key: spec_fn(U) -> u64) -> Seq<(U, u64)> {
    s.map_values(|u: U| (u, key(u)))
}

/// The stable sort of `s` by `key` (items with equal keys keep their order).
pub open spec fn stable_sort_by<U>(s: Seq<U>, key: spec_fn(U) -> u64) -> Seq<U> {
    sort_keyed(keyed(s, key)).map_values(|p: (U, u64)| p.0)
}

proof fn lemma_insert_map<T, U>(s: Seq<(T, u64)>, x: (T, u64), f: spec_fn(T) -> U)
    ensures
        map_items(insert_keyed(s, x), f) == insert_keyed(map_items(s, f), (f(x.0), x.1)),
    decreases s.len(),
{
    if s.len() == 0 || s.last().1 <= x.1 {
        assert(map_items(s.push(x), f) =~= map_items(s, f).push((f(x.0), x.1)));
    } else {
        lemma_insert_map(s.drop_last(), x, f);
        assert(map_items(s, f).drop_last() =~= map_items(s.drop_last(), f));
        assert(map_items(insert_keyed(s.drop_last(), x).push(s.last()), f) =~= map_items(
            insert_keyed(s.drop_last(), x),
            f,
        ).push((f(s.last().0), s.last().1)));
    }
}

/// Sorting commutes with changing the items while keeping their keys.
pub proof fn lemma_sort_map<T, U>(s: Seq<(T, u64)>, f: spec_fn(T) -> U)
    ensures
        map_items(sort_keyed(s), f) == sort_keyed(map_items(s, f)),
    decreases s.len(),
{
    if s.len() > 0 {
        lemma_sort_map(s.drop_last(), f);
        assert(map_items(s, f).drop_last() =~= map_items(s.drop_last(), f));
        lemma_insert_map(sort_keyed(s.drop_last()), s.last(), f);
    } else {
        assert(map_items(s, f) =~= Seq::<(U, u64)>::empty());
    }
}

/// The stable sort by key lists its items in non-decreasing key order.
pub proof fn lemma_stable_sort_by_sorted<U>(s: Seq<U>, key: spec_fn(U) -> u64)
    ensures
        stable_sort_by(s, key).len() == s.len(),
        forall|i: int, j: int|
            0 <= i <= j < s.len() ==> key(#[trigger] stable_sort_by(s, key)[i]) <= key(
                #[trigger] stable_sort_by(s, key)[j],
            ),
{
    let k = keyed(s, key);
    lemma_sort_keyed_sorted(k);
    lemma_sort_keyed_multiset(k);
    let r = sort_keyed(k);
    assert forall|i: int| 0 <= i < r.len() implies r[i].1 == key(r[i].0) by {
        broadcast use vstd::seq_lib::group_to_multiset_ensures;

        assert(r.contains(r[i]));
        assert(r.to_multiset().count(r[i]) > 0);
        assert(k.to_multiset().count(r[i]) > 0);
        assert(k.contains(r[i]));
        let m = choose|m: int| 0 <= m < k.len() && k[m] == r[i];
        assert(k[m] == (s[m], key(s[m])));
    }
}

/// The items (without keys) of a keyed sequence.
pub open spec fn items<U>(s: Seq<(U, u64)>) -> Seq<U> {
    s.map_values(|p: (U, u64)| p.0)
}

proof fn lemma_insert_items_multiset<U>(s: Seq<(U, u64)>, x: (U, u64))
    ensures
        items(insert_keyed(s, x)).to_multiset() == items(s).to_multiset().insert(x.0),
    decreases s.len(),
{
    broadcast use vstd::seq_lib::group_to_multiset_ensures;

    if s.len() == 0 || s.last().1 <= x.1 {
        assert(items(s.push(x)) =~= items(s).push(x.0));
    } else {
        lemma_insert_items_multiset(s.drop_last(), x);
        assert(items(insert_keyed(s.drop_last(), x).push(s.last())) =~= items(
            insert_keyed(s.drop_last(), x),
        ).push(s.last().0));
        assert(items(s) =~= items(s.drop_last()).push(s.last().0));
        assert(items(insert_keyed(s, x)).to_multiset() =~= items(s).to_multiset().insert(x.0));
    }
}

proof fn lemma_sort_items_multiset<U>(s: Seq<(U, u64)>)
    ensures
        items(sort_keyed(s)).to_multiset() == items(s).to_multiset(),
    decreases s.len(),
{
    broadcast use vstd::seq_lib::group_to_multiset_ensures;

    if s.len() > 0 {
        lemma_sort_items_multiset(s.drop_last());
        lemma_insert_items_multiset(sort_keyed(s.drop_last()), s.last());
        assert(items(s) =~= items(s.drop_last()).push(s.last().0));
    }
}

/// The stable sort by key is a rearrangement of its input.
pub proof fn lemma_stable_sort_by_permutes<U>(s: Seq<U>, key: spec_fn(U) -> u64)
    ensures
        stable_sort_by(s, key).to_multiset() == s.to_multiset(),
{
    let k = keyed(s, key);
    lemma_sort_items_multiset(k);
    assert(items(k) =~= s);
    assert(stable_sort_by(s, key) == items(sort_keyed(k)));
}

/// Stable sort of keyed items by key (insertion sort).
pub fn sort_by_keys<T>(v: Vec<(T, u64)>) -> (r: Vec<(T, u64)>)
    ensures
        r@ == sort_keyed(v@),
{
    let ghost orig = v@;
    let mut input = v;
    let mut out: Vec<(T, u64)> = Vec::new();
    let n = input.len();
    let mut i: usize = 0;
    assert(orig.take(0) =~= Seq::<(T, u64)>::empty());
    assert(orig.skip(0) == orig);
    while i < n
        invariant
            n == orig.len(),
            i <= n,
            out@ == sort_keyed(orig.take(i as int)),
            input@ == orig.skip(i as int),
        decreases n - i,
    {
        let x = input.remove(0);
        assert(x == orig[i as int]);
        assert(input@ == orig.skip(i + 1));
        let ghost s = out@;
        let mut p: usize = out.len();
        assert(s.take(p as int) == s);
        assert(s.skip(p as int) =~= Seq::<(T, u64)>::empty());
        while p > 0 && out[p - 1].1 > x.1
            invariant
                p <= out.len(),
                out@ == s,
                forall|k: int| p <= k < s.len() ==> s[k].1 > x.1,
            decreases p,
        {
            p = p - 1;
        }
        proof {
            lemma_insert_keyed_split(s, x, p as int);
            if p > 0 {
                assert(s.take(p as int).last() == s[p - 1]);
            }
            assert(orig.take(i + 1).drop_last() == orig.take(i as int));
            assert(orig.take(i + 1).last() == x);
        }
        out.insert(p, x);
        assert(out@ =~= s.take(p as int).push(x) + s.skip(p as int));
        i = i + 1;
    }
    assert(orig.take(n as int) == orig);
    out
}

} // verus!
