use vstd::prelude::*;

use crate::ir::{
    Context,
    ctrl_flow::{
        BlockId,
        basic_blocks::{BasicBlock, Statement, Terminator},
        function::{FunStatic, Function, MirFunId},
    },
};
use crate::output::displays::values::{
    calls_declared, operand_text, place_text, rvalue_declared, rvalue_text, write_operand,
    write_place, write_rvalue,
};
use crate::output::dot::DotOutput;
use crate::output::text::{dec_text, write_u64};

verus! {

broadcast use vstd::std_specs::hash::group_hash_axioms;

/// How a statement is written in a block's label.
pub open spec fn statement_text(s: Statement, ctx: Context) -> Seq<char> {
    match s {
        Statement::Assign(p, rv) => place_text(p) + " = "@ + rvalue_text(rv, ctx),
        Statement::StorageLive(id) => "live(%"@ + dec_text(id as nat) + ")"@,
        Statement::StorageDead(id) => "dead(%"@ + dec_text(id as nat) + ")"@,
        Statement::Nop => "nop"@,
    }
}

/// How a terminator is written in a block's label.
pub open spec fn terminator_text(t: Terminator, ctx: Context) -> Seq<char> {
    match t {
        Terminator::Return(Some(v)) => "ret "@ + operand_text(v, ctx),
        Terminator::Return(None) => "ret"@,
        Terminator::Goto(id) => "goto bb"@ + dec_text(id as nat),
        Terminator::Iff { discriminant, .. } => "br "@ + operand_text(discriminant, ctx),
    }
}

/// The statements of a block, each after a left-justified line break.
pub open spec fn statements_text(s: Seq<Statement>, ctx: Context) -> Seq<char>
    decreases s.len(),
{
    if s.len() == 0 {
        Seq::empty()
    } else {
        statements_text(s.drop_last(), ctx) + "\\l"@ + statement_text(s.last(), ctx)
    }
}

/// The label of block `id`: its name, its statements, a rule and its
/// terminator.
pub open spec fn block_label(id: BlockId, b: BasicBlock, ctx: Context) -> Seq<char> {
    "bb"@ + dec_text(id as nat) + statements_text(b.statements@, ctx) + "\\l---\\n"@
        + terminator_text(b.terminator, ctx)
}

/// The node line of block `id`; the entry block is drawn in green.
pub open spec fn block_line(
    id: BlockId,
    b: BasicBlock,
    entry: Option<BlockId>,
    ctx: Context,
) -> Seq<char> {
    "  bb"@ + dec_text(id as nat) + " [label=\""@ + block_label(id, b, ctx) + "\""@ + (if entry
        == Some(id) {
        " style=filled, fillcolor=lightgreen"@
    } else {
        Seq::empty()
    }) + "];\n"@
}

/// The edge lines leaving block `from`: one for a jump, one labelled
/// `true` and one labelled `false` for a conditional branch, none for a
/// return.
pub open spec fn edge_lines(from: BlockId, t: Terminator) -> Seq<char> {
    match t {
        Terminator::Goto(to) => "  bb"@ + dec_text(from as nat) + " -> bb"@ + dec_text(to as nat)
            + ";\n"@,
        Terminator::Iff { then_dst, else_dst, .. } => "  bb"@ + dec_text(from as nat) + " -> bb"@
            + dec_text(then_dst as nat) + " [label=\"true\"];\n"@ + "  bb"@ + dec_text(
            from as nat,
        ) + " -> bb"@ + dec_text(else_dst as nat) + " [label=\"false\"];\n"@,
        Terminator::Return(_) => Seq::empty(),
    }
}

/// The node lines of the blocks of `s` listed in `order`.
pub open spec fn blocks_text(order: Seq<BlockId>, s: FunStatic, ctx: Context) -> Seq<char>
    decreases order.len(),
{
    if order.len() == 0 {
        Seq::empty()
    } else {
        blocks_text(order.drop_last(), s, ctx) + block_line(
            order.last(),
            s.blocks@[order.last()],
            s.entry_block,
            ctx,
        )
    }
}

/// The edge lines of the blocks of `s` listed in `order`.
pub open spec fn edges_text(order: Seq<BlockId>, s: FunStatic) -> Seq<char>
    decreases order.len(),
{
    if order.len() == 0 {
        Seq::empty()
    } else {
        edges_text(order.drop_last(), s) + edge_lines(
            order.last(),
            s.blocks@[order.last()].terminator,
        )
    }
}

/// The opening lines of the graph of a function named `name`.
pub open spec fn dot_header(name: Seq<char>) -> Seq<char> {
    "digraph \""@ + name + "\" {\n"@ + "  labeljust=l\n"@
        + "  node [shape=box, style=filled, fillcolor=lightblue, fontname=\"monospace\"];\n"@
        + "  edge [fontname=\"monospace\"];\n"@ + "  rankdir=TB;\n"@
}

/// The graph of function `f` with its blocks taken in `order`: an empty
/// graph for a function declared elsewhere; otherwise the header, a node
/// per block, then the edges of every block.
pub open spec fn function_dot(f: Function, order: Seq<BlockId>, ctx: Context) -> Seq<char> {
    match f.body() {
        None => "digraph \""@ + f.name@ + "\" {}\n"@,
        Some(s) => dot_header(f.name@) + blocks_text(order, s, ctx) + edges_text(order, s) + "}"@,
    }
}

/// `order` lists each built block of `s` exactly once.
pub open spec fn block_order(order: Seq<BlockId>, s: FunStatic) -> bool {
    order.no_duplicates() && order.to_set() == s.blocks@.dom()
}

/// Every function and struct that the statement names is declared.
pub open spec fn statement_declared(s: Statement, ctx: Context) -> bool {
    match s {
        Statement::Assign(_, rv) => rvalue_declared(rv, ctx),
        _ => true,
    }
}

/// Every function that the terminator calls is declared.
pub open spec fn terminator_declared(t: Terminator, ctx: Context) -> bool {
    match t {
        Terminator::Return(Some(v)) => calls_declared(v, ctx),
        Terminator::Iff { discriminant, .. } => calls_declared(discriminant, ctx),
        _ => true,
    }
}

/// Every function and struct that the block names is declared.
pub open spec fn block_declared(b: BasicBlock, ctx: Context) -> bool {
    &&& forall|i: int|
        0 <= i < b.statements@.len() ==> statement_declared(#[trigger] b.statements@[i], ctx)
    &&& terminator_declared(b.terminator, ctx)
}

/// Every function and struct that a block of the body names is declared.
pub open spec fn body_declared(s: FunStatic, ctx: Context) -> bool {
    forall|b: BlockId| #[trigger] s.blocks@.contains_key(b) ==> block_declared(s.blocks@[b], ctx)
}

/// The identifiers of the built blocks, each once, in the order in which
/// the map yields them.
fn block_ids(data: &FunStatic) -> (r: Vec<BlockId>)
    ensures
        block_order(r@, *data),
{
    let mut out: Vec<BlockId> = Vec::new();
    proof {
        assert(out@.to_set() =~= Set::<BlockId>::empty());
        assert forall|q: Seq<&BlockId>| q.len() == 0 implies #[trigger] q.unref().to_set()
            == Set::<BlockId>::empty() by {
            assert(q.unref().to_set() =~= Set::<BlockId>::empty());
        }
    }
    for b in it: data.blocks.keys()
        invariant
            it.seq().unref().to_set() == data.blocks@.dom(),
            it.seq().unref().no_duplicates(),
            out@ == it.seq().take(it.index() as int).unref(),
            it.index() == it.seq().len() ==> block_order(out@, *data),
    {
        out.push(*b);
        proof {
            assert(out@ =~= it.seq().take(it.index() + 1).unref());
            assert(it.seq().take(it.seq().len() as int) =~= it.seq());
        }
    }
    out
}

/// Writes functions of a `Context` as graphviz `dot` graphs of their
/// blocks.
pub struct DotFormatter<'a> {
    pub ctx: &'a Context,
    pub fun_id: MirFunId,
}

impl<'a> DotFormatter<'a> {
    /// A formatter of function `fun_id` of `ctx`.
    pub fn new(ctx: &'a Context, fun_id: MirFunId) -> (r: Self)
        ensures
            r.ctx == ctx,
            r.fun_id == fun_id,
    {
        Self { ctx, fun_id }
    }

    /// Appends the graph of the function, its blocks in the order in which
    /// the body's map yields them.
    fn write_function(&self, out: &mut String)
        requires
            self.ctx.functions@.contains_key(self.fun_id),
            self.ctx.functions@[self.fun_id].body() matches Some(s) ==> body_declared(
                s,
                *self.ctx,
            ),
        ensures
            exists|order: Seq<BlockId>|
                {
                    &&& (self.ctx.functions@[self.fun_id].body() matches Some(s) ==> block_order(
                        order,
                        s,
                    ))
                    &&& final(out)@ == old(out)@ + function_dot(
                        self.ctx.functions@[self.fun_id],
                        order,
                        *self.ctx,
                    )
                },
    {
        let ghost start = out@;
        let fun = match self.ctx.functions.get(&self.fun_id) {
            Some(f) => f,
            None => {
                return ;
            },
        };
        let data = match fun.linkage.get_linkage() {
            Some(d) => d,
            None => {
                out.append("digraph \"");
                out.append(fun.name.as_str());
                out.append("\" {}\n");
                assert(out@ =~= start + function_dot(*fun, Seq::empty(), *self.ctx));
                return ;
            },
        };
        out.append("digraph \"");
        out.append(fun.name.as_str());
        out.append("\" {\n");
        out.append("  labeljust=l\n");
        out.append(
            "  node [shape=box, style=filled, fillcolor=lightblue, fontname=\"monospace\"];\n",
        );
        out.append("  edge [fontname=\"monospace\"];\n");
        out.append("  rankdir=TB;\n");
        let ghost head = out@;
        assert(head =~= start + dot_header(fun.name@));
        let ids = block_ids(data);
        let mut i: usize = 0;
        while i < ids.len()
            invariant
                i <= ids@.len(),
                block_order(ids@, *data),
                body_declared(*data, *self.ctx),
                out@ == head + blocks_text(ids@.take(i as int), *data, *self.ctx),
            decreases ids.len() - i,
        {
            let id = ids[i];
            assert(ids@.to_set().contains(id));
            let block = data.blocks.get(&id).unwrap();
            assert(ids@.take(i + 1).drop_last() =~= ids@.take(i as int));
            self.write_block(out, id, block, data);
            i += 1;
        }
        assert(ids@.take(ids@.len() as int) =~= ids@);
        let ghost mid = out@;
        let mut j: usize = 0;
        while j < ids.len()
            invariant
                j <= ids@.len(),
                block_order(ids@, *data),
                out@ == mid + edges_text(ids@.take(j as int), *data),
            decreases ids.len() - j,
        {
            let id = ids[j];
            assert(ids@.to_set().contains(id));
            let block = data.blocks.get(&id).unwrap();
            assert(ids@.take(j + 1).drop_last() =~= ids@.take(j as int));
            self.write_edges(id, &block.terminator, out);
            j += 1;
        }
        assert(ids@.take(ids@.len() as int) =~= ids@);
        out.append("}");
        assert(out@ =~= start + function_dot(*fun, ids@, *self.ctx));
    }

    /// Appends the node line of block `block_id` of `data`.
    fn write_block(&self, out: &mut String, block_id: BlockId, block: &BasicBlock, data: &FunStatic)
        requires
            block_declared(*block, *self.ctx),
        ensures
            final(out)@ == old(out)@ + block_line(block_id, *block, data.entry_block, *self.ctx),
    {
        let ghost start = out@;
        let is_entry = match data.entry_block {
            Some(e) => e == block_id,
            None => false,
        };
        out.append("  bb");
        write_u64(out, block_id as u64);
        out.append(" [label=\"");
        let ghost label_start = out@;
        out.append("bb");
        write_u64(out, block_id as u64);
        let mut i: usize = 0;
        while i < block.statements.len()
            invariant
                i <= block.statements@.len(),
                block_declared(*block, *self.ctx),
                out@ == label_start + "bb"@ + dec_text(block_id as nat) + statements_text(
                    block.statements@.take(i as int),
                    *self.ctx,
                ),
            decreases block.statements.len() - i,
        {
            assert(block.statements@.take(i + 1).drop_last() =~= block.statements@.take(i as int));
            assert(statement_declared(block.statements@[i as int], *self.ctx));
            out.append("\\l");
            let s = self.format_statement(&block.statements[i]);
            out.append(s.as_str());
            i += 1;
        }
        assert(block.statements@.take(block.statements@.len() as int) =~= block.statements@);
        out.append("\\l---\\n");
        let t = self.format_terminator(&block.terminator);
        out.append(t.as_str());
        out.append("\"");
        if is_entry {
            out.append(" style=filled, fillcolor=lightgreen");
        }
        out.append("];\n");
        assert(out@ =~= start + block_line(block_id, *block, data.entry_block, *self.ctx));
    }

    /// Appends the edge lines leaving block `from`.
    fn write_edges(&self, from: BlockId, terminator: &Terminator, out: &mut String)
        ensures
            final(out)@ == old(out)@ + edge_lines(from, *terminator),
    {
        let ghost start = out@;
        match terminator {
            Terminator::Goto(target) => {
                out.append("  bb");
                write_u64(out, from as u64);
                out.append(" -> bb");
                write_u64(out, *target as u64);
                out.append(";\n");
            },
            Terminator::Iff { then_dst, else_dst, .. } => {
                out.append("  bb");
                write_u64(out, from as u64);
                out.append(" -> bb");
                write_u64(out, *then_dst as u64);
                out.append(" [label=\"true\"];\n");
                out.append("  bb");
                write_u64(out, from as u64);
                out.append(" -> bb");
                write_u64(out, *else_dst as u64);
                out.append(" [label=\"false\"];\n");
            },
            Terminator::Return(_) => {},
        }
        assert(out@ =~= start + edge_lines(from, *terminator));
    }

    /// A statement as the block label shows it.
    fn format_statement(&self, stmt: &Statement) -> (r: String)
        requires
            statement_declared(*stmt, *self.ctx),
        ensures
            r@ == statement_text(*stmt, *self.ctx),
    {
        let mut out = String::new();
        match stmt {
            Statement::Assign(place, rvalue) => {
                write_place(&mut out, place);
                out.append(" = ");
                write_rvalue(&mut out, rvalue, self.ctx);
            },
            Statement::StorageLive(id) => {
                out.append("live(%");
                write_u64(&mut out, *id as u64);
                out.append(")");
            },
            Statement::StorageDead(id) => {
                out.append("dead(%");
                write_u64(&mut out, *id as u64);
                out.append(")");
            },
            Statement::Nop => out.append("nop"),
        }
        out
    }

    /// A terminator as the block label shows it.
    fn format_terminator(&self, term: &Terminator) -> (r: String)
        requires
            terminator_declared(*term, *self.ctx),
        ensures
            r@ == terminator_text(*term, *self.ctx),
    {
        let mut out = String::new();
        match term {
            Terminator::Return(operand) => match operand {
                Some(value) => {
                    out.append("ret ");
                    write_operand(&mut out, value, self.ctx);
                },
                None => out.append("ret"),
            },
            Terminator::Goto(id) => {
                out.append("goto bb");
                write_u64(&mut out, *id as u64);
            },
            Terminator::Iff { discriminant, .. } => {
                out.append("br ");
                write_operand(&mut out, discriminant, self.ctx);
            },
        }
        out
    }
}

impl<'a> DotOutput for DotFormatter<'a> {
    /// The function is declared, and so is everything its blocks name.
    open spec fn dot_ready(&self) -> bool {
        &&& self.ctx.functions@.contains_key(self.fun_id)
        &&& self.ctx.functions@[self.fun_id].body() matches Some(s) ==> body_declared(
            s,
            *self.ctx,
        )
    }

    /// `text` is the graph of the function with its built blocks in some
    /// order, each once.
    open spec fn dot_text_ok(&self, text: Seq<char>) -> bool {
        exists|order: Seq<BlockId>|
            {
                &&& (self.ctx.functions@[self.fun_id].body() matches Some(s) ==> block_order(
                    order,
                    s,
                ))
                &&& text == function_dot(self.ctx.functions@[self.fun_id], order, *self.ctx)
            }
    }

    fn write_dot(&self, out: &mut String) {
        let ghost start = out@;
        self.write_function(out);
        proof {
            let order = choose|order: Seq<BlockId>|
                {
                    &&& (self.ctx.functions@[self.fun_id].body() matches Some(s) ==> block_order(
                        order,
                        s,
                    ))
                    &&& out@ == start + function_dot(
                        self.ctx.functions@[self.fun_id],
                        order,
                        *self.ctx,
                    )
                };
            assert(self.dot_text_ok(function_dot(self.ctx.functions@[self.fun_id], order, *self.ctx)));
        }
    }
}

} // verus!
