use vstd::prelude::*;

verus! {

/// The set of the first `i + 1` elements is that of the first `i` with
/// element `i` added.
pub proof fn lemma_prefix_to_set<T>(s: Seq<&T>, i: int)
    requires
        0 <= i < s.len(),
    ensures
        s.take(i + 1).unref().to_set() == s.take(i).unref().to_set().insert(*s[i]),
{
    assert(s.take(i + 1).unref() =~= s.take(i).unref().push(*s[i]));
    s.take(i).unref().lemma_push_to_set_commute(*s[i]);
}

/// The set of all the elements is that of the whole prefix.
pub proof fn lemma_full_prefix<T>(s: Seq<&T>)
    ensures
        s.take(s.len() as int).unref().to_set() == s.unref().to_set(),
{
    assert(s.take(s.len() as int) =~= s);
}

/// The empty prefix has no elements.
pub proof fn lemma_empty_prefix<T>(s: Seq<&T>)
    ensures
        s.take(0).unref().to_set() == Set::<T>::empty(),
{
    assert(s.take(0).unref().to_set() =~= Set::<T>::empty());
}

} // verus!
