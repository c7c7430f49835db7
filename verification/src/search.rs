//! First-match search over sequences, the shape of every by-key lookup.

use vstd::prelude::*;

verus! {

/// The index of the first element of `s` that satisfies `p`.
pub open spec fn first_index<A>(s: Seq<A>, p: spec_fn(A) -> bool) -> Option<int>
    decreases s.len(),
{
    if s.len() == 0 {
        None
    } else {
        match first_index(s.drop_last(), p) {
            Some(i) => Some(i),
            None => if p(s.last()) {
                Some(s.len() - 1)
            } else {
                None
            },
        }
    }
}

/// What `first_index` finds: a satisfying element with none before it, or
/// no satisfying element at all.
pub proof fn lemma_first_index<A>(s: Seq<A>, p: spec_fn(A) -> bool)
    ensures
        match first_index(s, p) {
            Some(i) => 0 <= i < s.len() && p(s[i]) && forall|k: int| 0 <= k < i ==> !p(#[trigger] s[k]),
            None => forall|k: int| 0 <= k < s.len() ==> !p(#[trigger] s[k]),
        },
    decreases s.len(),
{
    if s.len() > 0 {
        lemma_first_index(s.drop_last(), p);
        assert forall|k: int| 0 <= k < s.len() - 1 implies s[k] == s.drop_last()[k] by {}
    }
}

/// `first_index` is characterised by its properties.
pub proof fn lemma_first_index_unique<A>(s: Seq<A>, p: spec_fn(A) -> bool, i: int)
    requires
        0 <= i < s.len(),
        p(s[i]),
        forall|k: int| 0 <= k < i ==> !p(#[trigger] s[k]),
    ensures
        first_index(s, p) == Some(i),
{
    lemma_first_index(s, p);
}

/// When no element satisfies `p`, `first_index` finds nothing.
pub proof fn lemma_first_index_none<A>(s: Seq<A>, p: spec_fn(A) -> bool)
    requires
        forall|k: int| 0 <= k < s.len() ==> !p(#[trigger] s[k]),
    ensures
        first_index(s, p) is None,
{
    lemma_first_index(s, p);
}

/// One more element of the prefix.
pub proof fn lemma_take_next<A>(s: Seq<A>, i: int)
    requires
        0 <= i < s.len(),
    ensures
        s.take(i + 1).drop_last() == s.take(i),
        s.take(i + 1).last() == s[i],
        s.take(i + 1).len() == i + 1,
        s.take(i + 1) == s.take(i).push(s[i]),
{
    assert(s.take(i + 1).drop_last() =~= s.take(i));
    assert(s.take(i + 1) =~= s.take(i).push(s[i]));
}

/// Appending keeps a first match that was already there.
pub proof fn lemma_first_index_push_some<A>(s: Seq<A>, x: A, p: spec_fn(A) -> bool)
    requires
        first_index(s, p) is Some,
    ensures
        first_index(s.push(x), p) == first_index(s, p),
{
    assert(s.push(x).drop_last() =~= s);
}

/// Appending a match to a sequence without one makes it the first match.
pub proof fn lemma_first_index_push_none<A>(s: Seq<A>, x: A, p: spec_fn(A) -> bool)
    requires
        first_index(s, p) is None,
        p(x),
    ensures
        first_index(s.push(x), p) == Some(s.len() as int),
{
    assert(s.push(x).drop_last() =~= s);
}

/// `first_index` finds something exactly when some element satisfies `p`.
pub proof fn lemma_first_index_exists<A>(s: Seq<A>, p: spec_fn(A) -> bool, j: int)
    requires
        0 <= j < s.len(),
        p(s[j]),
    ensures
        first_index(s, p) is Some,
{
    lemma_first_index(s, p);
}

} // verus!
