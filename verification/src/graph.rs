use vstd::prelude::*;

verus! {

/// `path` is a non-empty walk along the successor relation `succ`.
pub open spec fn is_walk<N>(succ: spec_fn(N) -> Set<N>, path: Seq<N>) -> bool {
    &&& path.len() > 0
    &&& forall|i: int| #![trigger path[i]] 0 <= i < path.len() - 1 ==> succ(path[i]).contains(path[i + 1])
}

/// Some walk along `succ` leads from `from` to `to`.
pub open spec fn reaches<N>(succ: spec_fn(N) -> Set<N>, from: N, to: N) -> bool {
    exists|path: Seq<N>| #[trigger] is_walk(succ, path) && path[0] == from && path.last() == to
}

/// Every node reaches itself.
pub proof fn lemma_reaches_refl<N>(succ: spec_fn(N) -> Set<N>, n: N)
    ensures
        reaches(succ, n, n),
{
    let path = seq![n];
    assert(is_walk(succ, path));
}

/// A successor of a reachable node is reachable.
pub proof fn lemma_reaches_step<N>(succ: spec_fn(N) -> Set<N>, from: N, mid: N, to: N)
    requires
        reaches(succ, from, mid),
        succ(mid).contains(to),
    ensures
        reaches(succ, from, to),
{
    let path = choose|path: Seq<N>| #[trigger] is_walk(succ, path) && path[0] == from && path.last() == mid;
    let p2 = path.push(to);
    assert forall|i: int| #![trigger p2[i]] 0 <= i < p2.len() - 1 implies succ(p2[i]).contains(
        p2[i + 1],
    ) by {
        if i < path.len() - 1 {
            assert(path[i] == p2[i]);
            assert(path[i + 1] == p2[i + 1]);
        }
    }
    assert(is_walk(succ, p2));
}

/// A walk that starts inside a set closed under `succ` stays inside it.
proof fn lemma_walk_in_closed<N>(succ: spec_fn(N) -> Set<N>, path: Seq<N>, s: Set<N>)
    requires
        is_walk(succ, path),
        s.contains(path[0]),
        forall|n: N| #[trigger] s.contains(n) ==> succ(n).subset_of(s),
    ensures
        s.contains(path.last()),
    decreases path.len(),
{
    if path.len() > 1 {
        let p = path.drop_last();
        assert forall|i: int| #![trigger p[i]] 0 <= i < p.len() - 1 implies succ(p[i]).contains(
            p[i + 1],
        ) by {
            assert(p[i] == path[i]);
            assert(p[i + 1] == path[i + 1]);
        }
        lemma_walk_in_closed(succ, p, s);
        assert(p.last() == path[path.len() - 2]);
        assert(succ(path[path.len() - 2]).contains(path[path.len() - 1]));
    }
}

/// Everything reachable from a member of a set closed under `succ` belongs
/// to the set.
pub proof fn lemma_closed_contains_reachable<N>(
    succ: spec_fn(N) -> Set<N>,
    from: N,
    s: Set<N>,
    to: N,
)
    requires
        s.contains(from),
        forall|n: N| #[trigger] s.contains(n) ==> succ(n).subset_of(s),
        reaches(succ, from, to),
    ensures
        s.contains(to),
{
    let path = choose|path: Seq<N>| #[trigger] is_walk(succ, path) && path[0] == from && path.last() == to;
    lemma_walk_in_closed(succ, path, s);
}

/// The state of a search from `entry`: every visited or pending node is
/// reachable, `entry` is visited or pending, and the successors of every
/// visited node are visited or pending.
pub open spec fn search_inv<N>(
    succ: spec_fn(N) -> Set<N>,
    entry: N,
    visited: Set<N>,
    pending: Seq<N>,
) -> bool {
    &&& forall|b: N| #[trigger] visited.contains(b) ==> reaches(succ, entry, b)
    &&& forall|i: int| 0 <= i < pending.len() ==> reaches(succ, entry, #[trigger] pending[i])
    &&& forall|b: N, t: N| #[trigger] visited.contains(b) && #[trigger] succ(b).contains(
        t,
    ) ==> visited.contains(t) || pending.contains(t)
    &&& visited.contains(entry) || pending.contains(entry)
}

/// Popping a node already visited keeps the search state.
pub proof fn lemma_search_skip<N>(
    succ: spec_fn(N) -> Set<N>,
    entry: N,
    visited: Set<N>,
    old_pending: Seq<N>,
    pending: Seq<N>,
    bb: N,
)
    requires
        search_inv(succ, entry, visited, old_pending),
        old_pending == pending.push(bb),
        visited.contains(bb),
    ensures
        search_inv(succ, entry, visited, pending),
{
    assert forall|i: int| 0 <= i < pending.len() implies reaches(succ, entry, #[trigger] pending[i]) by {
        assert(old_pending[i] == pending[i]);
    }
    assert forall|t: N| old_pending.contains(t) && t != bb implies pending.contains(t) by {
        let k = choose|k: int| 0 <= k < old_pending.len() && old_pending[k] == t;
        assert(pending[k] == t);
    }
}

/// Visiting a popped node and pushing its successors keeps the search state.
pub proof fn lemma_search_visit<N>(
    succ: spec_fn(N) -> Set<N>,
    entry: N,
    visited: Set<N>,
    old_pending: Seq<N>,
    before: Seq<N>,
    pending: Seq<N>,
    bb: N,
)
    requires
        search_inv(succ, entry, visited, old_pending),
        old_pending == before.push(bb),
        pending.len() >= before.len(),
        forall|i: int| 0 <= i < before.len() ==> pending[i] == before[i],
        forall|i: int| before.len() <= i < pending.len() ==> succ(bb).contains(#[trigger] pending[i]),
        forall|t: N| #[trigger] succ(bb).contains(t) ==> pending.contains(t),
    ensures
        search_inv(succ, entry, visited.insert(bb), pending),
{
    assert(old_pending[old_pending.len() - 1] == bb);
    assert(reaches(succ, entry, bb));
    assert forall|i: int| 0 <= i < pending.len() implies reaches(succ, entry, #[trigger] pending[i]) by {
        if i < before.len() {
            assert(old_pending[i] == pending[i]);
        } else {
            lemma_reaches_step(succ, entry, bb, pending[i]);
        }
    }
    assert forall|b: N| #[trigger] visited.insert(bb).contains(b) implies reaches(succ, entry, b) by {
    }
    assert forall|t: N| old_pending.contains(t) && t != bb implies pending.contains(t) by {
        let k = choose|k: int| 0 <= k < old_pending.len() && old_pending[k] == t;
        assert(k < before.len());
        assert(pending[k] == t);
    }
    assert forall|b: N, t: N| #[trigger] visited.insert(bb).contains(b)
        && #[trigger] succ(b).contains(t) implies visited.insert(bb).contains(t) || pending.contains(t) by {
        if b == bb {
        } else {
            assert(visited.contains(t) || old_pending.contains(t));
        }
    }
}

} // verus!
