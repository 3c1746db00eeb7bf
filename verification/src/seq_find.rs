//! The first element of a sequence that meets a condition.

use vstd::prelude::*;

verus! {

/// An index that a search found, as a mathematical integer.
pub open spec fn index_view(index: Option<usize>) -> Option<int> {
    match index {
        Some(k) => Some(k as int),
        None => None,
    }
}

/// The first index at which an element of `s` meets `p`.
pub open spec fn first_index<A>(s: Seq<A>, p: spec_fn(A) -> bool) -> Option<int>
    decreases s.len(),
{
    if s.len() == 0 {
        None
    } else if first_index(s.drop_last(), p) is Some {
        first_index(s.drop_last(), p)
    } else if p(s.last()) {
        Some(s.len() - 1)
    } else {
        None
    }
}

/// `first_index` finds an index whose element meets `p`, with no earlier
/// one; it finds none only where no element meets `p`.
pub proof fn lemma_first_index<A>(s: Seq<A>, p: spec_fn(A) -> bool)
    ensures
        match first_index(s, p) {
            Some(k) => 0 <= k < s.len() && p(s[k]) && forall|j: int| 0 <= j < k ==> !p(s[j]),
            None => forall|j: int| 0 <= j < s.len() ==> !p(s[j]),
        },
    decreases s.len(),
{
    if s.len() > 0 {
        let front = s.drop_last();
        lemma_first_index(front, p);
        assert(forall|j: int| 0 <= j < front.len() ==> front[j] == s[j]);
    }
}

/// What `first_index` finds in a prefix, it finds in the whole.
pub proof fn lemma_first_index_prefix<A>(s: Seq<A>, k: int, p: spec_fn(A) -> bool)
    requires
        0 <= k <= s.len(),
        first_index(s.subrange(0, k), p) is Some,
    ensures
        first_index(s, p) == first_index(s.subrange(0, k), p),
    decreases s.len() - k,
{
    if k < s.len() {
        assert(s.subrange(0, k + 1).drop_last() =~= s.subrange(0, k));
        lemma_first_index_prefix(s, k + 1, p);
    } else {
        assert(s.subrange(0, k) =~= s);
    }
}

/// One step of a search from the front: where no element before `k` meets
/// `p`, the element at `k` decides what the prefix up to it holds.
pub proof fn lemma_first_index_step<A>(s: Seq<A>, k: int, p: spec_fn(A) -> bool)
    requires
        0 <= k < s.len(),
        first_index(s.subrange(0, k), p) is None,
    ensures
        p(s[k]) ==> first_index(s, p) == Some(k),
        !p(s[k]) ==> first_index(s.subrange(0, k + 1), p) is None,
{
    assert(s.subrange(0, k + 1).drop_last() =~= s.subrange(0, k));
    if p(s[k]) {
        lemma_first_index_prefix(s, k + 1, p);
    }
}

/// A search that has passed every element has found none.
pub proof fn lemma_first_index_end<A>(s: Seq<A>, p: spec_fn(A) -> bool)
    requires
        first_index(s.subrange(0, s.len() as int), p) is None,
    ensures
        first_index(s, p) is None,
{
    assert(s.subrange(0, s.len() as int) =~= s);
}

/// Where only one element can meet `p`, `first_index` finds it.
pub proof fn lemma_first_index_unique<A>(s: Seq<A>, k: int, p: spec_fn(A) -> bool)
    requires
        0 <= k < s.len(),
        p(s[k]),
        forall|j: int| 0 <= j < k ==> !p(s[j]),
    ensures
        first_index(s, p) == Some(k),
{
    lemma_first_index(s, p);
}

} // verus!
