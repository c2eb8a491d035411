use std::collections::{HashMap, HashSet};

use vstd::prelude::*;

use crate::builder::{block_stored, fun_replaced};
use crate::dead_code::{block_succs, reachable_blocks, succ_fn};
use crate::graph::{
    is_walk, lemma_closed_contains_reachable, lemma_reaches_refl, lemma_search_skip,
    lemma_search_visit, reaches, search_inv,
};
use crate::iter_lemmas::{lemma_empty_prefix, lemma_full_prefix, lemma_prefix_to_set};
use crate::ir::{
    Context,
    ctrl_flow::{
        BasicBlock, BlockId, LocalId, Place, ProjectionKind, RValue, Statement, Terminator,
        basic_blocks::terminator_targets,
        function::{FunStatic, Function, MirFunId},
    },
};
use crate::typer::{place_type, rvalue_type};

verus! {

broadcast use vstd::std_specs::hash::group_hash_axioms;

/// The local a place starts from, under all its projections.
pub open spec fn base_local(p: Place) -> LocalId
    decreases p,
{
    match p {
        Place::Local(id) => id,
        Place::Projection(inner, _) => base_local(*inner),
    }
}

/// The live set after one statement: `StorageLive` adds its local,
/// `StorageDead` removes it, other statements leave the set alone.
pub open spec fn storage_step(live: Set<LocalId>, st: Statement) -> Set<LocalId> {
    match st {
        Statement::StorageLive(x) => live.insert(x),
        Statement::StorageDead(x) => live.remove(x),
        _ => live,
    }
}

/// The live set after a sequence of statements, starting from `live`.
pub open spec fn surviving(stmts: Seq<Statement>, live: Set<LocalId>) -> Set<LocalId>
    decreases stmts.len(),
{
    if stmts.len() == 0 {
        live
    } else {
        storage_step(surviving(stmts.drop_last(), live), stmts.last())
    }
}

/// Whether a statement respects storage lifetimes given the locals live
/// before it: a local is not made live twice, only a live local is made
/// dead, and an assignment writes into a live local.
pub open spec fn stmt_lifetime_ok(st: Statement, live: Set<LocalId>) -> bool {
    match st {
        Statement::StorageLive(x) => !live.contains(x),
        Statement::StorageDead(x) => live.contains(x),
        Statement::Assign(p, _) => live.contains(base_local(p)),
        Statement::Nop => true,
    }
}

/// Whether every statement respects storage lifetimes, the locals in
/// `live` being live on entry.
pub open spec fn lifetime_ok(stmts: Seq<Statement>, live: Set<LocalId>) -> bool {
    forall|i: int|
        0 <= i < stmts.len() ==> stmt_lifetime_ok(#[trigger] stmts[i], surviving(stmts.take(i), live))
}

/// Whether an assignment's place and rvalue have the same type (other
/// statements always pass).
pub open spec fn stmt_types_ok(st: Statement, f: Function, ctx: Context) -> bool {
    match st {
        Statement::Assign(p, rv) => {
            &&& place_type(p, f, ctx) is Some
            &&& place_type(p, f, ctx) == rvalue_type(rv, f, ctx)
        },
        _ => true,
    }
}

/// Whether every assignment of every built block of `f` is well typed; a
/// function declared elsewhere always passes.
pub open spec fn fun_types_ok(f: Function, ctx: Context) -> bool {
    f.body() matches Some(s) ==> forall|b: BlockId, i: int|
        #![trigger s.blocks@[b].statements@[i]]
        s.blocks@.contains_key(b) && 0 <= i < s.blocks@[b].statements@.len() ==> stmt_types_ok(
            s.blocks@[b].statements@[i],
            f,
            ctx,
        )
}

/// Every jump of every built block lands on a block the function knows.
pub open spec fn jumps_known(s: FunStatic) -> bool {
    forall|b: BlockId, t: BlockId| #[trigger] block_succs(s, b).contains(t) ==> s.known(t)
}

/// The blocks that may jump to `k`.
pub open spec fn preds_of(s: FunStatic, k: BlockId) -> Set<BlockId> {
    Set::new(|b: BlockId| block_succs(s, b).contains(k))
}

/// What a block's statements do to whether `x` is live: the last storage
/// statement on `x` decides (`Some(true)` for `StorageLive`, `Some(false)`
/// for `StorageDead`); `None` when there is none.
pub open spec fn storage_effect(stmts: Seq<Statement>, x: LocalId) -> Option<bool>
    decreases stmts.len(),
{
    if stmts.len() == 0 {
        None
    } else {
        match stmts.last() {
            Statement::StorageLive(y) if y == x => Some(true),
            Statement::StorageDead(y) if y == x => Some(false),
            _ => storage_effect(stmts.drop_last(), x),
        }
    }
}

/// Whether `x` is live on leaving block `b`, given whether it was live on
/// entering it.
pub open spec fn live_out(s: FunStatic, b: BlockId, x: LocalId, live: bool) -> bool {
    if s.blocks@.contains_key(b) {
        match storage_effect(s.blocks@[b].statements@, x) {
            Some(v) => v,
            None => live,
        }
    } else {
        live
    }
}

/// The control-flow graph tracking whether `x` is live: a node is a block
/// with the liveness of `x` on entry to it.
pub open spec fn live_succ(s: FunStatic, x: LocalId) -> spec_fn((BlockId, bool)) -> Set<
    (BlockId, bool),
> {
    |n: (BlockId, bool)|
        Set::new(
            |m: (BlockId, bool)| block_succs(s, n.0).contains(m.0) && m.1 == live_out(s, n.0, x, n.1),
        )
}

/// Whether `x` may be live on entry to block `b`: some path from the entry
/// block (where nothing is live) to `b` leaves `x` live.
pub open spec fn live_in(s: FunStatic, x: LocalId, b: BlockId) -> bool {
    match s.entry_block {
        Some(e) => reaches(live_succ(s, x), (e, false), (b, true)),
        None => false,
    }
}

/// Some built block makes `x` live.
pub open spec fn made_live(s: FunStatic, x: LocalId) -> bool {
    exists|b: BlockId, i: int|
        #![trigger s.blocks@[b].statements@[i]]
        s.blocks@.contains_key(b) && 0 <= i < s.blocks@[b].statements@.len()
            && s.blocks@[b].statements@[i] == Statement::StorageLive(x)
}

/// A block whose statements make `x` live holds a `StorageLive(x)`.
proof fn lemma_effect_live(stmts: Seq<Statement>, x: LocalId) -> (i: int)
    requires
        storage_effect(stmts, x) == Some(true),
    ensures
        0 <= i < stmts.len(),
        stmts[i] == Statement::StorageLive(x),
    decreases stmts.len(),
{
    match stmts.last() {
        Statement::StorageLive(y) if y == x => (stmts.len() - 1) as int,
        Statement::StorageDead(y) if y == x => 0,
        _ => {
            let j = lemma_effect_live(stmts.drop_last(), x);
            assert(stmts.drop_last()[j] == stmts[j]);
            j
        },
    }
}

/// A walk of the liveness graph that starts with `x` dead and ends with it
/// live passes through a block that makes `x` live.
proof fn lemma_walk_made_live(s: FunStatic, x: LocalId, path: Seq<(BlockId, bool)>)
    requires
        is_walk(live_succ(s, x), path),
        path[0].1 == false,
        path.last().1 == true,
    ensures
        made_live(s, x),
    decreases path.len(),
{
    let p = path.drop_last();
    assert(path.len() > 1);
    let prev = path[path.len() - 2];
    assert(p.last() == prev);
    if prev.1 {
        assert forall|i: int| #![trigger p[i]] 0 <= i < p.len() - 1 implies live_succ(s, x)(
            p[i],
        ).contains(p[i + 1]) by {
            assert(p[i] == path[i]);
            assert(p[i + 1] == path[i + 1]);
        }
        assert(p[0] == path[0]);
        lemma_walk_made_live(s, x, p);
    } else {
        assert(live_succ(s, x)(path[path.len() - 2]).contains(path[path.len() - 1]));
        assert(live_out(s, prev.0, x, false));
        let b = prev.0;
        let i = lemma_effect_live(s.blocks@[b].statements@, x);
        assert(s.blocks@[b].statements@[i] == Statement::StorageLive(x));
    }
}

/// A walk of the liveness graph projects to a walk of the control-flow graph.
proof fn lemma_walk_projects(s: FunStatic, x: LocalId, path: Seq<(BlockId, bool)>)
    requires
        is_walk(live_succ(s, x), path),
    ensures
        reaches(succ_fn(s), path[0].0, path.last().0),
    decreases path.len(),
{
    if path.len() == 1 {
        lemma_reaches_refl(succ_fn(s), path[0].0);
    } else {
        let p = path.drop_last();
        assert forall|i: int| #![trigger p[i]] 0 <= i < p.len() - 1 implies live_succ(s, x)(
            p[i],
        ).contains(p[i + 1]) by {
            assert(p[i] == path[i]);
            assert(p[i + 1] == path[i + 1]);
        }
        lemma_walk_projects(s, x, p);
        assert(live_succ(s, x)(path[path.len() - 2]).contains(path[path.len() - 1]));
        crate::graph::lemma_reaches_step(succ_fn(s), path[0].0, p.last().0, path.last().0);
    }
}

/// What `stmts` do to whether `x` is live (see `storage_effect`).
fn storage_effect_of(stmts: &Vec<Statement>, x: LocalId) -> (r: Option<bool>)
    ensures
        r == storage_effect(stmts@, x),
{
    let mut i: usize = stmts.len();
    assert(stmts@.take(i as int) == stmts@);
    while i > 0
        invariant
            i <= stmts@.len(),
            storage_effect(stmts@, x) == storage_effect(stmts@.take(i as int), x),
        decreases i,
    {
        assert(stmts@.take(i as int).last() == stmts@[i - 1]);
        assert(stmts@.take(i as int).drop_last() == stmts@.take(i - 1));
        match &stmts[i - 1] {
            Statement::StorageLive(y) => {
                if *y == x {
                    return Some(true);
                }
            },
            Statement::StorageDead(y) => {
                if *y == x {
                    return Some(false);
                }
            },
            _ => {},
        }
        i -= 1;
    }
    None
}

/// The nodes of the liveness graph visited so far: block `b` with `x` live
/// when `b` is in `live`, with `x` dead when it is in `dead`.
spec fn visited_nodes(live: Set<BlockId>, dead: Set<BlockId>) -> Set<(BlockId, bool)> {
    Set::new(|n: (BlockId, bool)| if n.1 { live.contains(n.0) } else { dead.contains(n.0) })
}

/// The blocks on entry to which `x` may be live, searching the liveness
/// graph from the entry block with `x` dead.
fn live_blocks_of(data: &FunStatic, entry: BlockId, x: LocalId) -> (r: HashSet<BlockId>)
    ensures
        forall|b: BlockId| #[trigger] r@.contains(b) <==> reaches(live_succ(*data, x), (entry, false), (b, true)),
{
    let ghost succ = live_succ(*data, x);
    let ghost bound = Set::<BlockId>::full().len();
    let ghost start = (entry, false);
    let mut vt: HashSet<BlockId> = HashSet::new();
    let mut vf: HashSet<BlockId> = HashSet::new();
    let mut worklist: Vec<(BlockId, bool)> = Vec::new();
    worklist.push((entry, false));
    proof {
        broadcast use vstd::set_lib::full_set_properties;

        assert(Set::<BlockId>::full().finite());
        lemma_reaches_refl(succ, start);
        assert(worklist@[0] == start);
        assert(visited_nodes(vt@, vf@) =~= Set::empty());
    }
    while worklist.len() > 0
        invariant
            succ == live_succ(*data, x),
            start == (entry, false),
            Set::<BlockId>::full().finite(),
            bound == Set::<BlockId>::full().len(),
            vt@.finite(),
            vf@.finite(),
            vt@.len() <= bound,
            vf@.len() <= bound,
            search_inv(succ, start, visited_nodes(vt@, vf@), worklist@),
        decreases 2 * bound - vt@.len() - vf@.len(), worklist@.len(),
    {
        let ghost old_wl = worklist@;
        let ghost old_v = visited_nodes(vt@, vf@);
        let (bb, live) = worklist.pop().unwrap();
        assert(old_wl == worklist@.push((bb, live)));
        let seen = if live {
            vt.contains(&bb)
        } else {
            vf.contains(&bb)
        };
        if seen {
            proof {
                lemma_search_skip(succ, start, old_v, old_wl, worklist@, (bb, live));
            }
            continue;
        }
        if live {
            proof {
                vstd::set_lib::lemma_len_subset(vt@.insert(bb), Set::<BlockId>::full());
            }
            vt.insert(bb);
        } else {
            proof {
                vstd::set_lib::lemma_len_subset(vf@.insert(bb), Set::<BlockId>::full());
            }
            vf.insert(bb);
        }
        assert(visited_nodes(vt@, vf@) =~= old_v.insert((bb, live)));
        let ghost before = worklist@;
        match data.blocks.get(&bb) {
            None => {
                assert(succ((bb, live)) =~= Set::empty());
            },
            Some(block) => {
                let out = match storage_effect_of(&block.statements, x) {
                    Some(v) => v,
                    None => live,
                };
                assert(out == live_out(*data, bb, x, live));
                match &block.terminator {
                    Terminator::Return(_) => {
                        assert(succ((bb, live)) =~= Set::empty());
                    },
                    Terminator::Goto(next) => {
                        worklist.push((*next, out));
                        assert(worklist@[worklist@.len() - 1] == (*next, out));
                        assert(succ((bb, live)) =~= set![(*next, out)]);
                    },
                    Terminator::Iff { then_dst, else_dst, .. } => {
                        worklist.push((*then_dst, out));
                        worklist.push((*else_dst, out));
                        assert(worklist@[worklist@.len() - 1] == (*else_dst, out));
                        assert(worklist@[worklist@.len() - 2] == (*then_dst, out));
                        assert(succ((bb, live)) =~= set![(*then_dst, out), (*else_dst, out)]);
                    },
                }
            },
        }
        proof {
            lemma_search_visit(succ, start, old_v, old_wl, before, worklist@, (bb, live));
        }
    }
    proof {
        let v = visited_nodes(vt@, vf@);
        assert forall|n: (BlockId, bool)| #[trigger] v.contains(n) implies succ(n).subset_of(v) by {}
        assert forall|b: BlockId| reaches(succ, start, (b, true)) implies #[trigger] vt@.contains(b) by {
            lemma_closed_contains_reachable(succ, start, v, (b, true));
        }
        assert forall|b: BlockId| #[trigger] vt@.contains(b) implies reaches(succ, start, (b, true)) by {
            assert(v.contains((b, true)));
        }
    }
    vt
}

/// Locals that some built block makes live; every local that can be live
/// anywhere is among them.
fn made_live_locals(data: &FunStatic) -> (r: Vec<LocalId>)
    ensures
        forall|x: LocalId| made_live(*data, x) ==> r@.contains(x),
{
    let mut out: Vec<LocalId> = Vec::new();
    let ghost mut seen: Set<BlockId> = Set::empty();
    proof {
        assert forall|q: Seq<&BlockId>| #[trigger] q.take(0).unref().to_set() == Set::<BlockId>::empty() by {
            lemma_empty_prefix(q);
        }
    }
    for b in it: data.blocks.keys()
        invariant
            it.seq().unref().to_set() == data.blocks@.dom(),
            seen == it.seq().take(it.index() as int).unref().to_set(),
            it.index() == it.seq().len() ==> seen == data.blocks@.dom(),
            forall|c: BlockId, i: int|
                #![trigger data.blocks@[c].statements@[i]]
                seen.contains(c) && data.blocks@.contains_key(c) && 0 <= i
                    < data.blocks@[c].statements@.len() && data.blocks@[c].statements@[i] is StorageLive
                    ==> out@.contains(data.blocks@[c].statements@[i]->StorageLive_0),
    {
        proof {
            lemma_prefix_to_set(it.seq(), it.index() as int);
            lemma_full_prefix(it.seq());
            assert(it.seq().unref().to_set().contains(*b));
        }
        let block = data.blocks.get(b).unwrap();
        let mut i: usize = 0;
        while i < block.statements.len()
            invariant
                data.blocks@.contains_key(*b),
                data.blocks@[*b] == *block,
                i <= block.statements@.len(),
                forall|c: BlockId, k: int|
                    #![trigger data.blocks@[c].statements@[k]]
                    seen.contains(c) && data.blocks@.contains_key(c) && 0 <= k
                        < data.blocks@[c].statements@.len() && data.blocks@[c].statements@[k] is StorageLive
                        ==> out@.contains(data.blocks@[c].statements@[k]->StorageLive_0),
                forall|k: int|
                    0 <= k < i && (#[trigger] block.statements@[k]) is StorageLive
                        ==> out@.contains(block.statements@[k]->StorageLive_0),
            decreases block.statements.len() - i,
        {
            let ghost old_out = out@;
            if let Statement::StorageLive(y) = &block.statements[i] {
                out.push(*y);
                assert(out@[out@.len() - 1] == *y);
            }
            proof {
                assert forall|y: LocalId| old_out.contains(y) implies out@.contains(y) by {
                    let j = choose|j: int| 0 <= j < old_out.len() && old_out[j] == y;
                    assert(out@[j] == y);
                }
            }
            i += 1;
        }
        proof {
            seen = seen.insert(*b);
        }
    }
    proof {
        assert forall|x: LocalId| made_live(*data, x) implies out@.contains(x) by {
            let (c, i) = choose|c: BlockId, i: int|
                #![trigger data.blocks@[c].statements@[i]]
                data.blocks@.contains_key(c) && 0 <= i < data.blocks@[c].statements@.len()
                    && data.blocks@[c].statements@[i] == Statement::StorageLive(x);
            assert(seen.contains(c));
        }
    }
    out
}

/// Law: the lifetime map marks a local live only on entry to reachable
/// blocks.
pub proof fn lemma_live_in_reachable(s: FunStatic, x: LocalId, b: BlockId)
    requires
        live_in(s, x, b),
    ensures
        reachable_blocks(s).contains(b),
{
    let e = s.entry_block->0;
    let path = choose|path: Seq<(BlockId, bool)>| #[trigger] is_walk(live_succ(s, x), path) && path[0] == (e, false) && path.last() == (b, true);
    lemma_walk_projects(s, x, path);
}

/// Law: a local that the lifetime map marks live somewhere is made live by
/// a `StorageLive` of some block.
pub proof fn lemma_live_in_made_live(s: FunStatic, x: LocalId, b: BlockId)
    requires
        live_in(s, x, b),
    ensures
        made_live(s, x),
{
    let e = s.entry_block->0;
    let path = choose|path: Seq<(BlockId, bool)>| #[trigger] is_walk(live_succ(s, x), path) && path[0] == (e, false) && path.last() == (b, true);
    lemma_walk_made_live(s, x, path);
}

/// Law: a projection starts from the same local as the place it projects
/// out of, however deep the projections go.
pub proof fn lemma_projection_keeps_base(p: Place, kind: ProjectionKind)
    ensures
        base_local(Place::Projection(Box::new(p), kind)) == base_local(p),
{
}

/// The last storage statement on `x` among `stmts`, if any, is at `i`.
proof fn lemma_storage_effect_at(stmts: Seq<Statement>, x: LocalId, i: int)
    requires
        0 <= i < stmts.len(),
        stmts[i] == Statement::StorageLive(x) || stmts[i] == Statement::StorageDead(x),
        forall|j: int|
            i < j < stmts.len() ==> #[trigger] stmts[j] != Statement::StorageLive(x) && stmts[j]
                != Statement::StorageDead(x),
    ensures
        storage_effect(stmts, x) == Some(stmts[i] == Statement::StorageLive(x)),
    decreases stmts.len(),
{
    if i < stmts.len() - 1 {
        let d = stmts.drop_last();
        assert(stmts.last() == stmts[stmts.len() - 1]);
        assert forall|j: int| i < j < d.len() implies #[trigger] d[j] != Statement::StorageLive(x)
            && d[j] != Statement::StorageDead(x) by {
            assert(d[j] == stmts[j]);
        }
        assert(d[i] == stmts[i]);
        lemma_storage_effect_at(d, x, i);
    }
}

/// Statements with no storage statement on `x` have no effect on it.
proof fn lemma_storage_effect_none(stmts: Seq<Statement>, x: LocalId)
    requires
        forall|j: int|
            0 <= j < stmts.len() ==> #[trigger] stmts[j] != Statement::StorageLive(x) && stmts[j]
                != Statement::StorageDead(x),
    ensures
        storage_effect(stmts, x) is None,
    decreases stmts.len(),
{
    if stmts.len() > 0 {
        let d = stmts.drop_last();
        assert(stmts.last() == stmts[stmts.len() - 1]);
        assert forall|j: int| 0 <= j < d.len() implies #[trigger] d[j] != Statement::StorageLive(x)
            && d[j] != Statement::StorageDead(x) by {
            assert(d[j] == stmts[j]);
        }
        lemma_storage_effect_none(d, x);
    }
}

/// Law: on leaving a built block, a local is live exactly when the block's
/// last storage statement on it is `StorageLive`; after a last
/// `StorageDead` it is dead, whatever it was on entry.
pub proof fn lemma_live_out_last_storage(
    s: FunStatic,
    b: BlockId,
    x: LocalId,
    live: bool,
    i: int,
)
    requires
        s.blocks@.contains_key(b),
        0 <= i < s.blocks@[b].statements@.len(),
        s.blocks@[b].statements@[i] == Statement::StorageLive(x) || s.blocks@[b].statements@[i]
            == Statement::StorageDead(x),
        forall|j: int|
            i < j < s.blocks@[b].statements@.len() ==> #[trigger] s.blocks@[b].statements@[j]
                != Statement::StorageLive(x) && s.blocks@[b].statements@[j]
                != Statement::StorageDead(x),
    ensures
        live_out(s, b, x, live) <==> s.blocks@[b].statements@[i] == Statement::StorageLive(x),
{
    lemma_storage_effect_at(s.blocks@[b].statements@, x, i);
}

/// Law: a block with no storage statement on a local leaves its liveness
/// as it was on entry.
pub proof fn lemma_live_out_no_storage(s: FunStatic, b: BlockId, x: LocalId, live: bool)
    requires
        forall|j: int|
            0 <= j < s.blocks@[b].statements@.len() ==> #[trigger] s.blocks@[b].statements@[j]
                != Statement::StorageLive(x) && s.blocks@[b].statements@[j]
                != Statement::StorageDead(x),
    ensures
        live_out(s, b, x, live) == live,
{
    lemma_storage_effect_none(s.blocks@[b].statements@, x);
}

/// Law: a local is live on entry to block `c` only when some reachable
/// block that may jump to `c` leaves it live.
pub proof fn lemma_live_in_from_predecessor(s: FunStatic, x: LocalId, c: BlockId)
    requires
        live_in(s, x, c),
    ensures
        exists|b: BlockId, l: bool|
            #![trigger live_out(s, b, x, l)]
            block_succs(s, b).contains(c) && live_out(s, b, x, l) && reachable_blocks(s).contains(b),
{
    let e = s.entry_block->0;
    let path = choose|path: Seq<(BlockId, bool)>| #[trigger] is_walk(live_succ(s, x), path) && path[0] == (e, false) && path.last() == (c, true);
    assert(path.len() > 1);
    let p = path.drop_last();
    assert forall|i: int| #![trigger p[i]] 0 <= i < p.len() - 1 implies live_succ(s, x)(
        p[i],
    ).contains(p[i + 1]) by {
        assert(p[i] == path[i]);
        assert(p[i + 1] == path[i + 1]);
    }
    assert(p[0] == path[0]);
    lemma_walk_projects(s, x, p);
    let prev = path[path.len() - 2];
    assert(p.last() == prev);
    assert(live_succ(s, x)(path[path.len() - 2]).contains(path[path.len() - 1]));
    assert(block_succs(s, prev.0).contains(c) && live_out(s, prev.0, x, prev.1));
    assert(reachable_blocks(s).contains(prev.0));
}

/// Whether `x` survives `stmts` follows the last storage statement on it.
proof fn lemma_surviving_effect(stmts: Seq<Statement>, x: LocalId, live: Set<LocalId>)
    ensures
        surviving(stmts, live).contains(x) == match storage_effect(stmts, x) {
            Some(v) => v,
            None => live.contains(x),
        },
    decreases stmts.len(),
{
    if stmts.len() > 0 {
        lemma_surviving_effect(stmts.drop_last(), x, live);
    }
}

/// Law: the liveness that the lifetime map follows through a block agrees
/// with the set of surviving locals that `get_surviving_vars` computes for
/// it: `x` is live on leaving built block `b` exactly when it survives the
/// block's statements starting from `{x}` if it was live on entry, from
/// nothing otherwise.
pub proof fn lemma_live_out_is_surviving(s: FunStatic, b: BlockId, x: LocalId, live: bool)
    requires
        s.blocks@.contains_key(b),
    ensures
        live_out(s, b, x, live) == surviving(
            s.blocks@[b].statements@,
            if live {
                set![x]
            } else {
                Set::empty()
            },
        ).contains(x),
{
    lemma_surviving_effect(
        s.blocks@[b].statements@,
        x,
        if live {
            set![x]
        } else {
            Set::empty()
        },
    );
}

/// Law: a function fails verification as soon as one of its built blocks
/// holds an assignment whose place has no type, whose rvalue has no type,
/// or whose place and rvalue have different types.
pub proof fn lemma_ill_typed_assignment_fails(
    f: Function,
    ctx: Context,
    b: BlockId,
    i: int,
    p: Place,
    rv: RValue,
)
    requires
        f.body() matches Some(s) && s.blocks@.contains_key(b) && 0 <= i
            < s.blocks@[b].statements@.len() && s.blocks@[b].statements@[i] == Statement::Assign(
            p,
            rv,
        ),
        place_type(p, f, ctx) is None || rvalue_type(rv, f, ctx) is None || place_type(p, f, ctx)
            != rvalue_type(rv, f, ctx),
    ensures
        !fun_types_ok(f, ctx),
{
    let s = f.body()->0;
    assert(!stmt_types_ok(s.blocks@[b].statements@[i], f, ctx));
}

/// Law: a function passes verification when every assignment of every
/// built block has a typed place and an rvalue of that same type; storage
/// statements and `Nop` are never rejected, and a function declared
/// elsewhere always passes.
pub proof fn lemma_well_typed_function_passes(f: Function, ctx: Context)
    requires
        f.body() matches Some(s) ==> forall|b: BlockId, i: int|
            #![trigger s.blocks@[b].statements@[i]]
            s.blocks@.contains_key(b) && 0 <= i < s.blocks@[b].statements@.len() ==> (
            s.blocks@[b].statements@[i] matches Statement::Assign(p, rv) ==> place_type(p, f, ctx)
                is Some && place_type(p, f, ctx) == rvalue_type(rv, f, ctx)),
    ensures
        fun_types_ok(f, ctx),
{
    if f.body() is Some {
        let s = f.body()->0;
        assert forall|b: BlockId, i: int|
            #![trigger s.blocks@[b].statements@[i]]
            s.blocks@.contains_key(b) && 0 <= i < s.blocks@[b].statements@.len() implies stmt_types_ok(
            s.blocks@[b].statements@[i],
            f,
            ctx,
        ) by {

        }
    }
}

/// Law: `p` is a predecessor of `k` exactly when `p` is a built block whose
/// terminator may jump to `k`; a block that returns is no one's
/// predecessor.
pub proof fn lemma_preds_are_jumps(s: FunStatic, p: BlockId, k: BlockId)
    ensures
        preds_of(s, k).contains(p) <==> (s.blocks@.contains_key(p) && terminator_targets(
            s.blocks@[p].terminator,
        ).contains(k)),
        s.blocks@.contains_key(p) && s.blocks@[p].terminator is Return ==> !preds_of(
            s,
            k,
        ).contains(p),
{
}

/// Law: closing a block whose jumps all land on blocks the function knows
/// (as `build_goto` and `build_iff` check) keeps every jump of the body on
/// a known block, which `get_predecessors` asks for.
pub proof fn lemma_store_keeps_jumps_known(
    before: Context,
    after: Context,
    fun: MirFunId,
    blk: BlockId,
    bb: BasicBlock,
)
    requires
        block_stored(before, after, fun, blk, bb),
        jumps_known(before.functions@[fun].body()->0),
        forall|t: BlockId| #[trigger]
            terminator_targets(bb.terminator).contains(t) ==> before.functions@[fun].body()->0.known(
                t,
            ),
    ensures
        after.functions@[fun].body() matches Some(t) && jumps_known(t),
{
    let s = before.functions@[fun].body()->0;
    let g = choose|g: Function|
        {
            &&& #[trigger] fun_replaced(before, after, fun, g)
            &&& g.name == before.functions@[fun].name
            &&& g.ty == before.functions@[fun].ty
            &&& g.body() matches Some(t) && {
                &&& t.blocks@ == s.blocks@.insert(blk, bb)
                &&& t.reserved == s.reserved
                &&& t.last_reserved == s.last_reserved
                &&& t.entry_block == s.entry_block
                &&& t.params == s.params
                &&& t.locals == s.locals
            }
        };
    assert(after.functions@[fun] == g);
    let t = g.body()->0;
    assert forall|b: BlockId, x: BlockId| #[trigger] block_succs(t, b).contains(x) implies t.known(
        x,
    ) by {
        if b != blk {
            assert(block_succs(s, b).contains(x));
        }
    }
}

/// Law: inserting an assignment or a `Nop` anywhere among the statements
/// leaves the set of surviving locals unchanged.
pub proof fn lemma_surviving_ignores(
    stmts: Seq<Statement>,
    i: int,
    st: Statement,
    live: Set<LocalId>,
)
    requires
        0 <= i <= stmts.len(),
        st is Assign || st is Nop,
    ensures
        surviving(stmts.insert(i, st), live) == surviving(stmts, live),
    decreases stmts.len(),
{
    let t = stmts.insert(i, st);
    if i == stmts.len() {
        assert(t.drop_last() =~= stmts);
    } else {
        lemma_surviving_ignores(stmts.drop_last(), i, st, live);
        assert(t.drop_last() =~= stmts.drop_last().insert(i, st));
        assert(t.last() == stmts.last());
    }
}

/// A copy of a set of locals.
pub(crate) fn copy_set(s: &HashSet<LocalId>) -> (r: HashSet<LocalId>)
    ensures
        r@ == s@,
{
    let mut r: HashSet<LocalId> = HashSet::new();
    proof {
        assert forall|q: Seq<&LocalId>| #[trigger] q.take(0).unref().to_set() == Set::<LocalId>::empty() by {
            lemma_empty_prefix(q);
        }
    }
    for x in it: s.iter()
        invariant
            it.seq().unref().to_set() == s@,
            r@ == it.seq().take(it.index() as int).unref().to_set(),
            it.index() == it.seq().len() ==> r@ == s@,
    {
        proof {
            lemma_prefix_to_set(it.seq(), it.index() as int);
            lemma_full_prefix(it.seq());
        }
        r.insert(*x);
    }
    r
}

/// Records `from` among the predecessors of `to`.
fn add_edge(preds: &mut HashMap<BlockId, HashSet<BlockId>>, to: BlockId, from: BlockId)
    requires
        old(preds)@.contains_key(to),
    ensures
        final(preds)@.dom() == old(preds)@.dom(),
        final(preds)@[to]@ == old(preds)@[to]@.insert(from),
        forall|k: BlockId| k != to && #[trigger] old(preds)@.contains_key(k) ==> final(preds)@[k]
            == old(preds)@[k],
{
    let mut set = preds.remove(&to).unwrap();
    set.insert(from);
    preds.insert(to, set);
    assert(preds@.dom() =~= old(preds)@.dom());
}

impl Function {
    /// For every block reachable from the entry block, the set of locals
    /// that may be live on entry to it: those that some path from the entry
    /// block, where no local is live, leaves live. Storage statements decide
    /// liveness: `StorageLive` makes a local live, `StorageDead` dead. An
    /// empty map for a function without body or without entry block.
    pub fn build_lifetime_map(&self) -> (r: HashMap<BlockId, HashSet<LocalId>>)
        ensures
            self.body() is None ==> r@ == Map::<BlockId, HashSet<LocalId>>::empty(),
            self.body() matches Some(s) ==> {
                &&& r@.dom() == reachable_blocks(s)
                &&& forall|b: BlockId| #[trigger] r@.contains_key(b) ==> r@[b]@ == Set::new(
                    |x: LocalId| live_in(s, x, b),
                )
            },
    {
        let data = match self.linkage.get_linkage() {
            Some(d) => d,
            None => return HashMap::new(),
        };
        let ghost s = *data;
        let entry = match data.entry_block {
            Some(e) => e,
            None => {
                let m: HashMap<BlockId, HashSet<LocalId>> = HashMap::new();
                assert(m@.dom() =~= reachable_blocks(s));
                return m;
            },
        };
        let reach = self.get_reachable_blocks().unwrap();
        let mut map: HashMap<BlockId, HashSet<LocalId>> = HashMap::new();
        proof {
            assert forall|q: Seq<&BlockId>| #[trigger] q.take(0).unref().to_set() == Set::<BlockId>::empty() by {
                lemma_empty_prefix(q);
            }
            assert(map@.dom() =~= Set::<BlockId>::empty());
        }
        for b in it: reach.iter()
            invariant
                it.seq().unref().to_set() == reach@,
                map@.dom() == it.seq().take(it.index() as int).unref().to_set(),
                forall|k: BlockId| #[trigger] map@.contains_key(k) ==> map@[k]@ == Set::<LocalId>::empty(),
                it.index() == it.seq().len() ==> map@.dom() == reach@,
        {
            proof {
                lemma_prefix_to_set(it.seq(), it.index() as int);
                lemma_full_prefix(it.seq());
            }
            map.insert(*b, HashSet::new());
            assert(map@.dom() =~= it.seq().take(it.index() + 1).unref().to_set());
        }
        let cands = made_live_locals(data);
        let mut i: usize = 0;
        assert(cands@.take(0) =~= Seq::<LocalId>::empty());
        while i < cands.len()
            invariant
                s == *data,
                s.entry_block == Some(entry),
                reach@ == reachable_blocks(s),
                forall|x: LocalId| made_live(s, x) ==> cands@.contains(x),
                i <= cands@.len(),
                map@.dom() == reach@,
                forall|b: BlockId, y: LocalId| #[trigger] map@.contains_key(b) ==> (
                #[trigger] map@[b]@.contains(y) <==> (cands@.take(i as int).contains(y) && live_in(
                    s,
                    y,
                    b,
                ))),
            decreases cands.len() - i,
        {
            let x = cands[i];
            let lb = live_blocks_of(data, entry, x);
            let ghost mut added: Set<BlockId> = Set::empty();
            for b in it: lb.iter()
                invariant
                    s == *data,
                    s.entry_block == Some(entry),
                    reach@ == reachable_blocks(s),
                    x == cands@[i as int],
                    forall|c: BlockId| #[trigger] lb@.contains(c) <==> live_in(s, x, c),
                    it.seq().unref().to_set() == lb@,
                    added == it.seq().take(it.index() as int).unref().to_set(),
                    it.index() == it.seq().len() ==> added == lb@,
                    map@.dom() == reach@,
                    forall|c: BlockId, y: LocalId| #[trigger] map@.contains_key(c) ==> (
                    #[trigger] map@[c]@.contains(y) <==> ((cands@.take(i as int).contains(y)
                        && live_in(s, y, c)) || (y == x && added.contains(c)))),
            {
                proof {
                    lemma_prefix_to_set(it.seq(), it.index() as int);
                    lemma_full_prefix(it.seq());
                    assert(it.seq().unref().to_set().contains(*b));
                    lemma_live_in_reachable(s, x, *b);
                }
                let ghost before = map@;
                add_edge(&mut map, *b, x);
                proof {
                    added = added.insert(*b);
                    assert forall|c: BlockId, y: LocalId| #[trigger] map@.contains_key(c) implies (
                    #[trigger] map@[c]@.contains(y) <==> ((cands@.take(i as int).contains(y)
                        && live_in(s, y, c)) || (y == x && added.contains(c)))) by {
                        assert(before.contains_key(c));
                    }
                }
            }
            proof {
                let t0 = cands@.take(i as int);
                let t1 = cands@.take(i + 1);
                assert(t1 == t0.push(x));
                assert forall|y: LocalId| #[trigger] t1.contains(y) <==> (t0.contains(y) || y == x) by {
                    if t1.contains(y) && !t0.contains(y) {
                        let j = choose|j: int| 0 <= j < t1.len() && t1[j] == y;
                        if j < t0.len() {
                            assert(t0[j] == y);
                        }
                    }
                    if t0.contains(y) {
                        let j = choose|j: int| 0 <= j < t0.len() && t0[j] == y;
                        assert(t1[j] == y);
                    }
                    if y == x {
                        assert(t1[t0.len() as int] == y);
                    }
                }
            }
            i += 1;
        }
        proof {
            assert(cands@.take(i as int) == cands@);
            assert forall|b: BlockId| #[trigger] map@.contains_key(b) implies map@[b]@ == Set::new(
                |x: LocalId| live_in(s, x, b),
            ) by {
                assert forall|y: LocalId| live_in(s, y, b) implies map@[b]@.contains(y) by {
                    lemma_live_in_made_live(s, y, b);
                }
                assert(map@[b]@ =~= Set::new(|x: LocalId| live_in(s, x, b)));
            }
        }
        map
    }

    /// For every block the function knows, the set of built blocks that may
    /// jump to it; an empty map for a function declared elsewhere.
    pub fn get_predecessors(&self) -> (r: HashMap<BlockId, HashSet<BlockId>>)
        requires
            self.body() matches Some(s) ==> jumps_known(s),
        ensures
            self.body() is None ==> r@ == Map::<BlockId, HashSet<BlockId>>::empty(),
            self.body() matches Some(s) ==> {
                &&& r@.dom() == Set::new(|b: BlockId| s.known(b))
                &&& forall|k: BlockId| #[trigger] r@.contains_key(k) ==> r@[k]@ == preds_of(s, k)
            },
    {
        let data = match self.linkage.get_linkage() {
            Some(data) => data,
            None => return HashMap::new(),
        };
        let mut preds: HashMap<BlockId, HashSet<BlockId>> = HashMap::new();
        proof {
            assert forall|q: Seq<&BlockId>| #[trigger] q.take(0).unref().to_set() == Set::<BlockId>::empty() by {
                lemma_empty_prefix(q);
            }
            assert(preds@.dom() =~= Set::<BlockId>::empty());
        }
        for b in it: data.reserved.iter()
            invariant
                it.seq().unref().to_set() == data.reserved@,
                preds@.dom() == it.seq().take(it.index() as int).unref().to_set(),
                forall|k: BlockId| #[trigger] preds@.contains_key(k) ==> preds@[k]@ == Set::<BlockId>::empty(),
                it.index() == it.seq().len() ==> preds@.dom() == data.reserved@,
        {
            proof {
                lemma_prefix_to_set(it.seq(), it.index() as int);
                lemma_full_prefix(it.seq());
            }
            preds.insert(*b, HashSet::new());
            assert(preds@.dom() =~= it.seq().take(it.index() + 1).unref().to_set());
        }
        let ghost reserved = data.reserved@;
        for b in it: data.blocks.keys()
            invariant
                reserved == data.reserved@,
                it.seq().unref().to_set() == data.blocks@.dom(),
                preds@.dom() == reserved.union(it.seq().take(it.index() as int).unref().to_set()),
                forall|k: BlockId| #[trigger] preds@.contains_key(k) ==> preds@[k]@ == Set::<BlockId>::empty(),
                it.index() == it.seq().len() ==> preds@.dom() == reserved.union(data.blocks@.dom()),
        {
            proof {
                lemma_prefix_to_set(it.seq(), it.index() as int);
                lemma_full_prefix(it.seq());
            }
            preds.insert(*b, HashSet::new());
            assert(preds@.dom() =~= reserved.union(it.seq().take(it.index() + 1).unref().to_set()));
        }
        let ghost s = *data;
        proof {
            assert(preds@.dom() =~= Set::new(|b: BlockId| s.known(b)));
        }
        let ghost mut seen: Set<BlockId> = Set::empty();
        for b in it: data.blocks.keys()
            invariant
                s == *data,
                jumps_known(s),
                it.seq().unref().to_set() == data.blocks@.dom(),
                seen == it.seq().take(it.index() as int).unref().to_set(),
                it.index() == it.seq().len() ==> seen == data.blocks@.dom(),
                preds@.dom() == Set::new(|b: BlockId| s.known(b)),
                forall|k: BlockId, p: BlockId| #[trigger] preds@.contains_key(k) ==> (#[trigger] preds@[k]@.contains(p) <==> (seen.contains(p) && block_succs(s, p).contains(k))),
        {
            proof {
                lemma_prefix_to_set(it.seq(), it.index() as int);
                lemma_full_prefix(it.seq());
                assert(it.seq().unref().to_set().contains(*b));
            }
            let ghost before = preds@;
            let block = data.blocks.get(b).unwrap();
            match &block.terminator {
                Terminator::Return(_) => {},
                Terminator::Goto(next) => {
                    assert(block_succs(s, *b).contains(*next));
                    add_edge(&mut preds, *next, *b);
                },
                Terminator::Iff { then_dst, else_dst, .. } => {
                    assert(block_succs(s, *b).contains(*then_dst));
                    assert(block_succs(s, *b).contains(*else_dst));
                    add_edge(&mut preds, *then_dst, *b);
                    add_edge(&mut preds, *else_dst, *b);
                },
            }
            proof {
                let old_seen = seen;
                seen = seen.insert(*b);
                assert forall|k: BlockId, p: BlockId| #[trigger] preds@.contains_key(k) implies (
                #[trigger] preds@[k]@.contains(p) <==> (seen.contains(p) && block_succs(s, p).contains(
                    k,
                ))) by {
                    assert(before.contains_key(k));
                }
            }
        }
        proof {
            assert forall|k: BlockId| #[trigger] preds@.contains_key(k) implies preds@[k]@ == preds_of(
                s,
                k,
            ) by {
                assert(preds@[k]@ =~= preds_of(s, k));
            }
        }
        preds
    }
}

impl Place {
    /// The local the place starts from, under all its projections.
    pub fn get_unprojected_local(&self) -> (r: LocalId)
        ensures
            r == base_local(*self),
        decreases self,
    {
        match self {
            Place::Local(id) => *id,
            Place::Projection(place, _) => place.get_unprojected_local(),
        }
    }
}

impl BasicBlock {
    /// Applies the block's storage statements to `set`: `StorageLive` adds
    /// its local, `StorageDead` removes it, in order.
    pub fn get_surviving_vars(&self, set: &mut HashSet<LocalId>)
        ensures
            final(set)@ == surviving(self.statements@, old(set)@),
    {
        let mut i: usize = 0;
        assert(self.statements@.take(0) == Seq::<Statement>::empty());
        while i < self.statements.len()
            invariant
                i <= self.statements@.len(),
                set@ == surviving(self.statements@.take(i as int), old(set)@),
            decreases self.statements.len() - i,
        {
            assert(self.statements@.take(i + 1).drop_last() == self.statements@.take(i as int));
            assert(self.statements@.take(i + 1).last() == self.statements@[i as int]);
            match &self.statements[i] {
                Statement::StorageLive(x) => {
                    set.insert(*x);
                },
                Statement::StorageDead(x) => {
                    set.remove(x);
                },
                _ => {},
            }
            i += 1;
        }
        assert(self.statements@.take(i as int) == self.statements@);
    }

    /// Whether the block respects storage lifetimes when the locals in
    /// `live_locals` are live on entry: no local is made live twice, only
    /// live locals are made dead, and assignments write into live locals.
    pub fn check_lifetime(&self, live_locals: &HashSet<LocalId>) -> (r: bool)
        ensures
            r == lifetime_ok(self.statements@, live_locals@),
    {
        let mut live = copy_set(live_locals);
        let mut i: usize = 0;
        assert(self.statements@.take(0) == Seq::<Statement>::empty());
        while i < self.statements.len()
            invariant
                i <= self.statements@.len(),
                live@ == surviving(self.statements@.take(i as int), live_locals@),
                forall|j: int|
                    0 <= j < i ==> stmt_lifetime_ok(
                        #[trigger] self.statements@[j],
                        surviving(self.statements@.take(j), live_locals@),
                    ),
            decreases self.statements.len() - i,
        {
            assert(self.statements@.take(i + 1).drop_last() == self.statements@.take(i as int));
            assert(self.statements@.take(i + 1).last() == self.statements@[i as int]);
            match &self.statements[i] {
                Statement::StorageLive(x) => {
                    if live.contains(x) {
                        return false;
                    }
                    live.insert(*x);
                },
                Statement::StorageDead(x) => {
                    if !live.contains(x) {
                        return false;
                    }
                    live.remove(x);
                },
                Statement::Assign(place, _) => {
                    if !live.contains(&place.get_unprojected_local()) {
                        return false;
                    }
                },
                Statement::Nop => {},
            }
            i += 1;
        }
        true
    }
}

impl Context {
    /// Whether every assignment in function `fun_id` is well typed; a
    /// function declared elsewhere passes.
    pub fn verify_fun(&self, fun_id: MirFunId) -> (r: bool)
        requires
            self.functions@.contains_key(fun_id),
        ensures
            r == fun_types_ok(self.functions@[fun_id], *self),
    {
        let fun = self.functions.get(&fun_id).unwrap();
        let data = match fun.linkage.get_linkage() {
            Some(data) => data,
            None => return true,
        };
        let ghost f = *fun;
        let ghost mut seen: Set<BlockId> = Set::empty();
        proof {
            assert forall|q: Seq<&BlockId>| #[trigger] q.take(0).unref().to_set() == Set::<BlockId>::empty() by {
                lemma_empty_prefix(q);
            }
        }
        for bb_id in it: data.blocks.keys()
            invariant
                f == self.functions@[fun_id],
                f.body() == Some(*data),
                *fun == f,
                it.seq().unref().to_set() == data.blocks@.dom(),
                seen == it.seq().take(it.index() as int).unref().to_set(),
                forall|b: BlockId, i: int|
                    #![trigger seen.contains(b), data.blocks@[b].statements@[i]]
                    seen.contains(b) && 0 <= i < data.blocks@[b].statements@.len()
                        ==> stmt_types_ok(data.blocks@[b].statements@[i], f, *self),
                it.index() == it.seq().len() ==> seen =~= data.blocks@.dom(),
        {
            proof {
                assert(it.seq().unref().to_set().contains(*bb_id));
            }
            let bb = data.blocks.get(bb_id).unwrap();
            let mut i: usize = 0;
            while i < bb.statements.len()
                invariant
                    f == self.functions@[fun_id],
                    f.body() == Some(*data),
                    data.blocks@.contains_key(*bb_id),
                    data.blocks@[*bb_id] == *bb,
                    *fun == f,
                    i <= bb.statements@.len(),
                    forall|k: int| 0 <= k < i ==> stmt_types_ok(#[trigger] bb.statements@[k], f, *self),
                decreases bb.statements.len() - i,
            {
                match &bb.statements[i] {
                    Statement::Assign(place, rvalue) => {
                        let rval_ty = rvalue.get_type(fun, self);
                        let pl_ty = place.get_type(fun, self);
                        match (rval_ty, pl_ty) {
                            (Some(rt), Some(pt)) => {
                                if !rt.same_as(&pt) {
                                    assert(!stmt_types_ok(bb.statements@[i as int], f, *self));
                                    return false;
                                }
                            },
                            _ => {
                                assert(!stmt_types_ok(bb.statements@[i as int], f, *self));
                                return false;
                            },
                        }
                    },
                    _ => {},
                }
                i += 1;
            }
            proof {
                lemma_prefix_to_set(it.seq(), it.index() as int);
                lemma_full_prefix(it.seq());
                seen = seen.insert(*bb_id);
            }
        }
        true
    }

    /// Whether every function of the unit passes `verify_fun`.
    pub fn verifiy(&self) -> (r: bool)
        ensures
            r == forall|k: MirFunId| #[trigger] self.functions@.contains_key(k) ==> fun_types_ok(
                self.functions@[k],
                *self,
            ),
    {
        let ghost mut seen: Set<MirFunId> = Set::empty();
        proof {
            assert forall|q: Seq<&MirFunId>| #[trigger] q.take(0).unref().to_set() == Set::<MirFunId>::empty() by {
                lemma_empty_prefix(q);
            }
        }
        for fun in it: self.functions.keys()
            invariant
                it.seq().unref().to_set() == self.functions@.dom(),
                seen == it.seq().take(it.index() as int).unref().to_set(),
                forall|k: MirFunId| #[trigger] seen.contains(k) ==> fun_types_ok(
                    self.functions@[k],
                    *self,
                ),
                it.index() == it.seq().len() ==> seen =~= self.functions@.dom(),
        {
            proof {
                assert(it.seq().unref().to_set().contains(*fun));
            }
            if !self.verify_fun(*fun) {
                return false;
            }
            proof {
                lemma_prefix_to_set(it.seq(), it.index() as int);
                lemma_full_prefix(it.seq());
                seen = seen.insert(*fun);
            }
        }
        true
    }
}

} // verus!
