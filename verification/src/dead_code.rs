use std::collections::HashSet;

use vstd::prelude::*;

use crate::graph::{
    lemma_closed_contains_reachable, lemma_reaches_refl, lemma_search_skip, lemma_search_visit,
    reaches, search_inv,
};
use crate::ir::ctrl_flow::{
    BlockId, Terminator,
    basic_blocks::terminator_targets,
    function::{FunStatic, Function},
};

verus! {

broadcast use vstd::std_specs::hash::group_hash_axioms;

/// The blocks control may pass to from block `b`: the targets of its
/// terminator once it is built, none before.
pub open spec fn block_succs(s: FunStatic, b: BlockId) -> Set<BlockId> {
    if s.blocks@.contains_key(b) {
        terminator_targets(s.blocks@[b].terminator)
    } else {
        Set::empty()
    }
}

/// The successor relation of a body.
pub open spec fn succ_fn(s: FunStatic) -> spec_fn(BlockId) -> Set<BlockId> {
    |b: BlockId| block_succs(s, b)
}

/// The blocks reachable from the entry block along terminator edges; none
/// when the body has no entry block.
pub open spec fn reachable_blocks(s: FunStatic) -> Set<BlockId> {
    match s.entry_block {
        Some(e) => Set::new(|b: BlockId| reaches(succ_fn(s), e, b)),
        None => Set::empty(),
    }
}

/// Law: the entry block, when there is one, is reachable.
pub proof fn lemma_entry_reachable(s: FunStatic)
    requires
        s.entry_block is Some,
    ensures
        reachable_blocks(s).contains(s.entry_block->0),
{
    lemma_reaches_refl(succ_fn(s), s.entry_block->0);
}

/// Law: every block that a reachable block may jump to is reachable.
pub proof fn lemma_reachable_closed(s: FunStatic, b: BlockId, c: BlockId)
    requires
        reachable_blocks(s).contains(b),
        block_succs(s, b).contains(c),
    ensures
        reachable_blocks(s).contains(c),
{
    crate::graph::lemma_reaches_step(succ_fn(s), s.entry_block->0, b, c);
}

/// Law: the reachable blocks lie inside every set of blocks that holds the
/// entry block and every block its members may jump to.
pub proof fn lemma_reachable_least(s: FunStatic, set: Set<BlockId>, b: BlockId)
    requires
        s.entry_block matches Some(e) && set.contains(e),
        forall|x: BlockId, y: BlockId| #[trigger] set.contains(x) && #[trigger] block_succs(
            s,
            x,
        ).contains(y) ==> set.contains(y),
        reachable_blocks(s).contains(b),
    ensures
        set.contains(b),
{
    let succ = succ_fn(s);
    assert forall|n: BlockId| #[trigger] set.contains(n) implies succ(n).subset_of(set) by {
        assert forall|y: BlockId| succ(n).contains(y) implies set.contains(y) by {
            assert(block_succs(s, n).contains(y));
        }
    }
    lemma_closed_contains_reachable(succ, s.entry_block->0, set, b);
}

impl Function {
    /// The set of blocks reachable from the entry block: `None` for a
    /// function declared elsewhere, the empty set for a body without entry
    /// block.
    pub fn get_reachable_blocks(&self) -> (r: Option<HashSet<BlockId>>)
        ensures
            self.body() is None ==> r is None,
            self.body() matches Some(s) ==> r matches Some(set) && set@ == reachable_blocks(s),
    {
        let data = match self.linkage.get_linkage() {
            Some(d) => d,
            None => return None,
        };
        let mut res: HashSet<BlockId> = HashSet::new();
        let entry = match data.entry_block {
            Some(e) => e,
            None => {
                assert(res@ == reachable_blocks(*data));
                return Some(res);
            },
        };
        let ghost succ = succ_fn(*data);
        let ghost bound = Set::<BlockId>::full().len();
        proof {
            broadcast use vstd::set_lib::full_set_properties;

            assert(Set::<BlockId>::full().finite());
            lemma_reaches_refl(succ, entry);
        }
        let mut worklist: Vec<BlockId> = Vec::new();
        worklist.push(entry);
        assert(worklist@[0] == entry);
        while worklist.len() > 0
            invariant
                succ == succ_fn(*data),
                Set::<BlockId>::full().finite(),
                bound == Set::<BlockId>::full().len(),
                res@.finite(),
                res@.len() <= bound,
                search_inv(succ, entry, res@, worklist@),
            decreases bound - res@.len(), worklist@.len(),
        {
            let ghost old_wl = worklist@;
            let bb = worklist.pop().unwrap();
            assert(old_wl == worklist@.push(bb));
            if res.contains(&bb) {
                proof {
                    lemma_search_skip(succ, entry, res@, old_wl, worklist@, bb);
                }
                continue;
            }
            proof {
                vstd::set_lib::lemma_len_subset(res@.insert(bb), Set::<BlockId>::full());
            }
            let ghost old_res = res@;
            res.insert(bb);
            let ghost before = worklist@;
            match data.blocks.get(&bb) {
                None => {},
                Some(block) => match &block.terminator {
                    Terminator::Return(_) => (),
                    Terminator::Goto(next) => {
                        worklist.push(*next);
                        assert(worklist@[worklist@.len() - 1] == *next);
                    },
                    Terminator::Iff { then_dst, else_dst, .. } => {
                        worklist.push(*then_dst);
                        worklist.push(*else_dst);
                        assert(worklist@[worklist@.len() - 1] == *else_dst);
                        assert(worklist@[worklist@.len() - 2] == *then_dst);
                    },
                },
            }
            proof {
                lemma_search_visit(succ, entry, old_res, old_wl, before, worklist@, bb);
            }
        }
        proof {
            assert forall|b: BlockId| #[trigger] res@.contains(b) implies succ(b).subset_of(res@) by {
            }
            assert forall|b: BlockId| reaches(succ, entry, b) implies #[trigger] res@.contains(b) by {
                lemma_closed_contains_reachable(succ, entry, res@, b);
            }
            assert(res@ =~= reachable_blocks(*data));
        }
        Some(res)
    }
}

} // verus!
