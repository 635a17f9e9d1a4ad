//! "The first element that satisfies a predicate", as `Iterator::find` gives it.

use vstd::prelude::*;

verus! {

/// The first element of `s` that satisfies `p`.
pub open spec fn find_first<T>(s: Seq<T>, p: spec_fn(T) -> bool) -> Option<T>
    decreases s.len(),
{
    if s.len() == 0 {
        None
    } else if p(s[0]) {
        Some(s[0])
    } else {
        find_first(s.drop_first(), p)
    }
}

/// Skipping elements that fail `p` does not change the first match.
pub proof fn lemma_find_first_skip<T>(s: Seq<T>, p: spec_fn(T) -> bool, i: int)
    requires
        0 <= i < s.len(),
        !p(s[i]),
    ensures
        find_first(s.skip(i), p) == find_first(s.skip(i + 1), p),
{
    assert(s.skip(i).drop_first() =~= s.skip(i + 1));
}

/// A match at position `i`, after elements that fail `p`, is the first match.
pub proof fn lemma_find_first_hit<T>(s: Seq<T>, p: spec_fn(T) -> bool, i: int)
    requires
        0 <= i < s.len(),
        p(s[i]),
    ensures
        find_first(s.skip(i), p) == Some(s[i]),
{
    assert(s.skip(i)[0] == s[i]);
}

/// No match in an empty rest.
pub proof fn lemma_find_first_end<T>(s: Seq<T>, p: spec_fn(T) -> bool)
    ensures
        find_first(s.skip(s.len() as int), p) is None,
{
    assert(s.skip(s.len() as int).len() == 0);
}

/// The first match satisfies the predicate and is an element of the sequence;
/// there is none exactly when no element satisfies it.
pub proof fn lemma_find_first_props<T>(s: Seq<T>, p: spec_fn(T) -> bool)
    ensures
        find_first(s, p) matches Some(x) ==> p(x) && s.contains(x),
        find_first(s, p) is None <==> forall|i: int| 0 <= i < s.len() ==> !p(#[trigger] s[i]),
    decreases s.len(),
{
    if s.len() > 0 {
        lemma_find_first_props(s.drop_first(), p);
        if !p(s[0]) {
            if let Some(x) = find_first(s, p) {
                let j = choose|j: int| 0 <= j < s.drop_first().len() && s.drop_first()[j] == x;
                assert(s[j + 1] == x);
            }
            assert forall|i: int| 0 <= i < s.len() && !p(s[0]) && find_first(s, p) is None implies !p(
                #[trigger] s[i],
            ) by {
                if i > 0 {
                    assert(s[i] == s.drop_first()[i - 1]);
                }
            }
        } else {
            assert(s.contains(s[0]));
        }
    }
}

} // verus!
