//! Facts about sequences, stated for one sequence at a time.
//!
//! They are for sequences of trait objects, of which the verifier does not
//! learn these facts by itself.

use vstd::prelude::*;

verus! {

/// The empty sequence has no entries.
pub proof fn lemma_empty<A>()
    ensures
        Seq::<A>::empty().len() == 0,
{
}

/// What `push` does to a sequence.
pub proof fn lemma_push<A>(s: Seq<A>, a: A)
    ensures
        s.push(a).len() == s.len() + 1,
        s.push(a)[s.len() as int] == a,
        forall|i: int| 0 <= i < s.len() ==> s.push(a)[i] == s[i],
{
}

/// What `+` does to two sequences.
pub proof fn lemma_concat<A>(s: Seq<A>, t: Seq<A>)
    ensures
        (s + t).len() == s.len() + t.len(),
        forall|i: int| 0 <= i < s.len() ==> (s + t)[i] == s[i],
        forall|i: int| 0 <= i < t.len() ==> (s + t)[s.len() + i] == t[i],
{
}

/// The parts of two sequences set behind each other: the second sequence is
/// the part behind the first, and a part within the first is not changed.
pub proof fn lemma_concat_parts<A>(s: Seq<A>, t: Seq<A>, from: int, to: int)
    requires
        0 <= from <= to <= s.len(),
    ensures
        (s + t).subrange(s.len() as int, (s.len() + t.len()) as int) == t,
        (s + t).subrange(from, to) == s.subrange(from, to),
{
    assert((s + t).subrange(s.len() as int, (s.len() + t.len()) as int) =~= t);
    assert((s + t).subrange(from, to) =~= s.subrange(from, to));
}

} // verus!
