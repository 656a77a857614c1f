//! First-in first-out caps on sequences.
use vstd::prelude::*;

verus! {

/// The last `cap` elements of `s` (all of them if there are fewer).
pub open spec fn keep_last<T>(s: Seq<T>, cap: nat) -> Seq<T> {
    if s.len() <= cap {
        s
    } else {
        s.subrange(s.len() - cap, s.len() as int)
    }
}

/// Capping after each push is capping once at the end.
pub proof fn lemma_keep_last_push<T>(s: Seq<T>, x: T, cap: nat)
    ensures
        keep_last(keep_last(s, cap).push(x), cap) == keep_last(s.push(x), cap),
        keep_last(s, cap).len() <= cap,
{
    if s.len() > cap {
        assert(keep_last(keep_last(s, cap).push(x), cap) =~= keep_last(s.push(x), cap));
    }
}

} // verus!
