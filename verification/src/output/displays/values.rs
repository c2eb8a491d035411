use vstd::prelude::*;

use crate::ir::{
    Context,
    ctrl_flow::{BinOp, Constant, Operand, Place, ProjectionKind, RValue, UnOp},
    types::{MirType, int_ty::IntType},
};
use crate::output::displays::types::{structs_declared, type_text, write_type};
use crate::output::text::{
    bool_text, dec_text, escape_text, escaped, lemma_dec_text_reads_back,
    lemma_signed_text_reads_back, read_signed, signed_text, unescape_spaces, unescape_spaces_of,
    write_bool, write_i64, write_u64,
};

verus! {

broadcast use vstd::std_specs::hash::group_hash_axioms;

/// How a place is written: `%n` for local `n`, then `.f` for a field,
/// `[i]` for an index and a leading `*` for a dereference.
pub open spec fn place_text(p: Place) -> Seq<char>
    decreases p,
{
    match p {
        Place::Local(id) => "%"@ + dec_text(id as nat),
        Place::Projection(inner, kind) => match kind {
            ProjectionKind::Field(f) => place_text(*inner) + "."@ + dec_text(f as nat),
            ProjectionKind::Index(i) => place_text(*inner) + "["@ + dec_text(i as nat) + "]"@,
            ProjectionKind::Deref => "*"@ + place_text(*inner),
        },
    }
}

/// The symbol of a binary operator.
pub open spec fn binop_text(op: BinOp) -> Seq<char> {
    match op {
        BinOp::Add => "+"@,
        BinOp::Sub => "-"@,
        BinOp::Mul => "*"@,
        BinOp::Div => "/"@,
        BinOp::And => "&&"@,
        BinOp::Or => "||"@,
        BinOp::Eq => "=="@,
        BinOp::Lt => "<"@,
        BinOp::Mod => "%"@,
        BinOp::ShiftRight => ">>"@,
        BinOp::ShiftLeft => "<<"@,
        BinOp::Neq => "!="@,
        BinOp::Leq => "<="@,
    }
}

/// The symbol of a unary operator.
pub open spec fn unop_text(op: UnOp) -> Seq<char> {
    match op {
        UnOp::Not => "!"@,
        UnOp::Minus => "-"@,
    }
}

/// How a constant is written. An integer is cut to the width of its integer
/// type and written in decimal (an integer of another type as a 64-bit
/// signed one); a `bool`-typed integer is written `true` when it is 0 and
/// `false` otherwise. A string is escaped twice, its escaped spaces are
/// turned back into spaces, and it is put between `\"` marks. A null
/// pointer is written `NULL`.
pub open spec fn constant_text(c: Constant) -> Seq<char> {
    match c {
        Constant::Int(v, t) => match t {
            MirType::Int(IntType::I8) => signed_text((v as i8) as int),
            MirType::Int(IntType::I16) => signed_text((v as i16) as int),
            MirType::Int(IntType::I32) => signed_text((v as i32) as int),
            MirType::Int(IntType::U8) => dec_text((v as u8) as nat),
            MirType::Int(IntType::U16) => dec_text((v as u16) as nat),
            MirType::Int(IntType::U32) => dec_text((v as u32) as nat),
            MirType::Int(IntType::U64) => dec_text((v as u64) as nat),
            MirType::Int(IntType::Bool) => bool_text(v == 0),
            _ => signed_text(v as int),
        },
        Constant::Bool(b) => bool_text(b),
        Constant::Str(s) => "\\\""@ + unescape_spaces(escaped(escaped(s@))) + "\\\""@,
        Constant::Null => "NULL"@,
    }
}

/// The text of the integer constant `v` of integer type `t`.
pub open spec fn int_text(v: i64, t: IntType) -> Seq<char> {
    constant_text(Constant::Int(v, MirType::Int(t)))
}

/// Law: an integer constant is written in decimal that reads back as its
/// value cut to the width and signedness of its type, so a value that the
/// type can hold reads back unchanged and a signed one is written with a
/// leading `-` exactly when it is negative. A constant of `bool` type is
/// written `true` exactly when its value is 0, and one of a non-integer
/// type reads back as its 64-bit value.
pub proof fn lemma_int_constant_text(v: i64)
    ensures
        read_signed(int_text(v, IntType::I8)) == (v as i8) as int,
        read_signed(int_text(v, IntType::I16)) == (v as i16) as int,
        read_signed(int_text(v, IntType::I32)) == (v as i32) as int,
        read_signed(int_text(v, IntType::I64)) == v,
        read_signed(int_text(v, IntType::U8)) == (v as u8) as int,
        read_signed(int_text(v, IntType::U16)) == (v as u16) as int,
        read_signed(int_text(v, IntType::U32)) == (v as u32) as int,
        read_signed(int_text(v, IntType::U64)) == (v as u64) as int,
        i8::MIN <= v <= i8::MAX ==> read_signed(int_text(v, IntType::I8)) == v,
        i16::MIN <= v <= i16::MAX ==> read_signed(int_text(v, IntType::I16)) == v,
        i32::MIN <= v <= i32::MAX ==> read_signed(int_text(v, IntType::I32)) == v,
        0 <= v <= u8::MAX ==> read_signed(int_text(v, IntType::U8)) == v,
        0 <= v <= u16::MAX ==> read_signed(int_text(v, IntType::U16)) == v,
        0 <= v <= u32::MAX ==> read_signed(int_text(v, IntType::U32)) == v,
        0 <= v ==> read_signed(int_text(v, IntType::U64)) == v,
        int_text(v, IntType::I8).len() > 0 && (int_text(v, IntType::I8)[0] == '-' <==> (v as i8) < 0),
        int_text(v, IntType::I16).len() > 0 && (int_text(v, IntType::I16)[0] == '-' <==> (v as i16)
            < 0),
        int_text(v, IntType::I32).len() > 0 && (int_text(v, IntType::I32)[0] == '-' <==> (v as i32)
            < 0),
        int_text(v, IntType::I64).len() > 0 && (int_text(v, IntType::I64)[0] == '-' <==> v < 0),
        int_text(v, IntType::Bool) == (if v == 0 {
            seq!['t', 'r', 'u', 'e']
        } else {
            seq!['f', 'a', 'l', 's', 'e']
        }),
        read_signed(constant_text(Constant::Int(v, MirType::Void))) == v,
{
    lemma_signed_text_reads_back((v as i8) as int);
    lemma_signed_text_reads_back((v as i16) as int);
    lemma_signed_text_reads_back((v as i32) as int);
    lemma_signed_text_reads_back(v as int);
    lemma_unsigned_text_reads_back((v as u8) as nat);
    lemma_unsigned_text_reads_back((v as u16) as nat);
    lemma_unsigned_text_reads_back((v as u32) as nat);
    lemma_unsigned_text_reads_back((v as u64) as nat);
    if i8::MIN <= v <= i8::MAX {
        assert((v as i8) as int == v) by (bit_vector)
            requires
                i8::MIN <= v <= i8::MAX,
        ;
    }
    if i16::MIN <= v <= i16::MAX {
        assert((v as i16) as int == v) by (bit_vector)
            requires
                i16::MIN <= v <= i16::MAX,
        ;
    }
    if i32::MIN <= v <= i32::MAX {
        assert((v as i32) as int == v) by (bit_vector)
            requires
                i32::MIN <= v <= i32::MAX,
        ;
    }
    if 0 <= v <= u8::MAX {
        assert((v as u8) as int == v) by (bit_vector)
            requires
                0 <= v <= u8::MAX,
        ;
    }
    if 0 <= v <= u16::MAX {
        assert((v as u16) as int == v) by (bit_vector)
            requires
                0 <= v <= u16::MAX,
        ;
    }
    if 0 <= v <= u32::MAX {
        assert((v as u32) as int == v) by (bit_vector)
            requires
                0 <= v <= u32::MAX,
        ;
    }
    if 0 <= v {
        assert((v as u64) as int == v) by (bit_vector)
            requires
                0 <= v,
        ;
    }
}

/// An unsigned decimal notation reads back as its value through
/// `read_signed`, as it starts with a digit.
proof fn lemma_unsigned_text_reads_back(n: nat)
    ensures
        read_signed(dec_text(n)) == n,
{
    lemma_dec_text_reads_back(n);
    assert(crate::output::text::is_digit(dec_text(n)[0]));
    assert('-' as int == 45);
}

/// How an operand is written: `copy(p)`, `move(p)`, a constant, or
/// `call f(a, ...)` with the callee's name in `ctx`.
pub open spec fn operand_text(o: Operand, ctx: Context) -> Seq<char>
    decreases o,
{
    match o {
        Operand::Copy(p) => "copy("@ + place_text(p) + ")"@,
        Operand::Move(p) => "move("@ + place_text(p) + ")"@,
        Operand::Constant(c) => constant_text(c),
        Operand::Call { func, args } => {
            proof {
                broadcast use vstd::std_specs::vec::axiom_vec_decreases_to_view;

                assert(decreases_to!(args => args@));
            }
            "call "@ + ctx.functions@[func].name@ + "("@ + operands_text(args@, ctx) + ")"@
        },
    }
}

/// The operands of `s` written one after the other, separated by `, `.
pub open spec fn operands_text(s: Seq<Operand>, ctx: Context) -> Seq<char>
    decreases s,
{
    if s.len() == 0 {
        Seq::empty()
    } else if s.len() == 1 {
        operand_text(s[0], ctx)
    } else {
        operands_text(s.drop_last(), ctx) + ", "@ + operand_text(s.last(), ctx)
    }
}

/// Every function that the operand calls is declared in `ctx`.
pub open spec fn calls_declared(o: Operand, ctx: Context) -> bool
    decreases o,
{
    match o {
        Operand::Call { func, args } => {
            proof {
                broadcast use vstd::std_specs::vec::axiom_vec_decreases_to_view;

                assert(decreases_to!(args => args@));
            }
            ctx.functions@.contains_key(func) && all_calls_declared(args@, ctx)
        },
        _ => true,
    }
}

/// Every function that an operand of `s` calls is declared in `ctx`.
pub open spec fn all_calls_declared(s: Seq<Operand>, ctx: Context) -> bool
    decreases s,
{
    if s.len() == 0 {
        true
    } else {
        all_calls_declared(s.drop_last(), ctx) && calls_declared(s.last(), ctx)
    }
}

/// `all_calls_declared` holds exactly when it holds of every element.
pub proof fn lemma_all_calls_declared(s: Seq<Operand>, ctx: Context)
    ensures
        all_calls_declared(s, ctx) <==> forall|i: int|
            0 <= i < s.len() ==> calls_declared(#[trigger] s[i], ctx),
    decreases s.len(),
{
    if s.len() > 0 {
        let d = s.drop_last();
        lemma_all_calls_declared(d, ctx);
        if all_calls_declared(s, ctx) {
            assert forall|i: int| 0 <= i < s.len() implies calls_declared(#[trigger] s[i], ctx) by {
                if i < s.len() - 1 {
                    assert(d[i] == s[i]);
                }
            }
        }
        if forall|i: int| 0 <= i < s.len() ==> calls_declared(#[trigger] s[i], ctx) {
            assert forall|i: int| 0 <= i < d.len() implies calls_declared(#[trigger] d[i], ctx) by {
                assert(s[i] == d[i]);
            }
            assert(calls_declared(s[s.len() - 1], ctx));
        }
    }
}

/// How an rvalue is written.
pub open spec fn rvalue_text(r: RValue, ctx: Context) -> Seq<char> {
    match r {
        RValue::Use(o) => operand_text(o, ctx),
        RValue::BinOp(op, l, r) => "("@ + operand_text(l, ctx) + " "@ + binop_text(op) + " "@
            + operand_text(r, ctx) + ")"@,
        RValue::UnOp(op, o) => unop_text(op) + operand_text(o, ctx),
        RValue::Cast(_, o, t) => "cast "@ + operand_text(o, ctx) + " to "@ + type_text(
            t@,
            ctx.structs@,
        ),
        RValue::Ref(p) => "&"@ + place_text(p),
        RValue::Len(p) => "len("@ + place_text(p) + ")"@,
        RValue::Aggregate(ops) => "aggregate ("@ + operands_text(ops@, ctx) + ")"@,
    }
}

/// Every function the rvalue calls, and every struct a cast names, is
/// declared in `ctx`.
pub open spec fn rvalue_declared(r: RValue, ctx: Context) -> bool {
    match r {
        RValue::Use(o) => calls_declared(o, ctx),
        RValue::BinOp(_, l, r) => calls_declared(l, ctx) && calls_declared(r, ctx),
        RValue::UnOp(_, o) => calls_declared(o, ctx),
        RValue::Cast(_, o, t) => calls_declared(o, ctx) && structs_declared(t@, ctx.structs@),
        RValue::Ref(_) => true,
        RValue::Len(_) => true,
        RValue::Aggregate(ops) => all_calls_declared(ops@, ctx),
    }
}

/// Appends how a place is written.
pub fn write_place(out: &mut String, p: &Place)
    ensures
        final(out)@ == old(out)@ + place_text(*p),
    decreases p,
{
    match p {
        Place::Local(id) => {
            out.append("%");
            write_u64(out, *id as u64);
        },
        Place::Projection(inner, kind) => match kind {
            ProjectionKind::Field(f) => {
                write_place(out, inner);
                out.append(".");
                write_u64(out, *f as u64);
            },
            ProjectionKind::Index(i) => {
                write_place(out, inner);
                out.append("[");
                write_u64(out, *i as u64);
                out.append("]");
            },
            ProjectionKind::Deref => {
                out.append("*");
                write_place(out, inner);
            },
        },
    }
}

/// Appends the symbol of a binary operator.
pub fn write_binop(out: &mut String, op: BinOp)
    ensures
        final(out)@ == old(out)@ + binop_text(op),
{
    match op {
        BinOp::Add => out.append("+"),
        BinOp::Sub => out.append("-"),
        BinOp::Mul => out.append("*"),
        BinOp::Div => out.append("/"),
        BinOp::And => out.append("&&"),
        BinOp::Or => out.append("||"),
        BinOp::Eq => out.append("=="),
        BinOp::Lt => out.append("<"),
        BinOp::Mod => out.append("%"),
        BinOp::ShiftRight => out.append(">>"),
        BinOp::ShiftLeft => out.append("<<"),
        BinOp::Neq => out.append("!="),
        BinOp::Leq => out.append("<="),
    }
}

/// Appends the symbol of a unary operator.
pub fn write_unop(out: &mut String, op: &UnOp)
    ensures
        final(out)@ == old(out)@ + unop_text(*op),
{
    match op {
        UnOp::Not => out.append("!"),
        UnOp::Minus => out.append("-"),
    }
}

/// Appends how a constant is written.
pub fn write_constant(out: &mut String, c: &Constant)
    ensures
        final(out)@ == old(out)@ + constant_text(*c),
{
    match c {
        Constant::Int(v, t) => match t {
            MirType::Int(IntType::I8) => write_i64(out, (*v as i8) as i64),
            MirType::Int(IntType::I16) => write_i64(out, (*v as i16) as i64),
            MirType::Int(IntType::I32) => write_i64(out, (*v as i32) as i64),
            MirType::Int(IntType::U8) => write_u64(out, (*v as u8) as u64),
            MirType::Int(IntType::U16) => write_u64(out, (*v as u16) as u64),
            MirType::Int(IntType::U32) => write_u64(out, (*v as u32) as u64),
            MirType::Int(IntType::U64) => write_u64(out, *v as u64),
            MirType::Int(IntType::Bool) => write_bool(out, *v == 0),
            _ => write_i64(out, *v),
        },
        Constant::Bool(b) => write_bool(out, *b),
        Constant::Str(s) => {
            let once = escape_text(s.as_str());
            let twice = escape_text(once.as_str());
            let shown = unescape_spaces_of(twice.as_str());
            out.append("\\\"");
            out.append(shown.as_str());
            out.append("\\\"");
        },
        Constant::Null => out.append("NULL"),
    }
}

/// Appends how an operand is written.
pub fn write_operand(out: &mut String, o: &Operand, ctx: &Context)
    requires
        calls_declared(*o, *ctx),
    ensures
        final(out)@ == old(out)@ + operand_text(*o, *ctx),
    decreases o,
{
    match o {
        Operand::Copy(p) => {
            out.append("copy(");
            write_place(out, p);
            out.append(")");
        },
        Operand::Move(p) => {
            out.append("move(");
            write_place(out, p);
            out.append(")");
        },
        Operand::Constant(c) => write_constant(out, c),
        Operand::Call { func, args } => {
            proof {
                broadcast use vstd::std_specs::vec::axiom_vec_decreases_to_view;
            }
            assert(decreases_to!(*o => *args));
            out.append("call ");
            match ctx.functions.get(func) {
                Some(f) => out.append(f.name.as_str()),
                None => {},
            }
            out.append("(");
            write_operands(out, Ghost(*o), args, ctx);
            out.append(")");
        },
    }
}

/// Appends the operands of `v` separated by `, `; `owner` is an operand
/// that holds `v`, needed only for the proof that writing operands
/// terminates.
fn write_operands(out: &mut String, Ghost(owner): Ghost<Operand>, v: &Vec<Operand>, ctx: &Context)
    requires
        decreases_to!(owner => *v),
        all_calls_declared(v@, *ctx),
    ensures
        final(out)@ == old(out)@ + operands_text(v@, *ctx),
    decreases owner, 0nat,
{
    proof {
        lemma_all_calls_declared(v@, *ctx);
    }
    let ghost start = out@;
    let mut i: usize = 0;
    while i < v.len()
        invariant
            i <= v@.len(),
            decreases_to!(owner => *v),
            forall|j: int| 0 <= j < v@.len() ==> calls_declared(#[trigger] v@[j], *ctx),
            out@ == start + operands_text(v@.take(i as int), *ctx),
        decreases v.len() - i,
    {
        proof {
            broadcast use vstd::std_specs::vec::axiom_vec_index_decreases;

            assert(decreases_to!(*v => v[i as int]));
        }
        let ghost pre = v@.take(i as int);
        let ghost next = v@.take(i + 1);
        assert(next.drop_last() =~= pre);
        assert(next.last() == v@[i as int]);
        if i > 0 {
            out.append(", ");
        }
        assert(calls_declared(v@[i as int], *ctx));
        write_operand(out, &v[i], ctx);
        i += 1;
    }
    assert(v@.take(v@.len() as int) =~= v@);
}

/// Appends how an rvalue is written.
pub fn write_rvalue(out: &mut String, r: &RValue, ctx: &Context)
    requires
        rvalue_declared(*r, *ctx),
    ensures
        final(out)@ == old(out)@ + rvalue_text(*r, *ctx),
{
    match r {
        RValue::Use(o) => write_operand(out, o, ctx),
        RValue::BinOp(op, l, rr) => {
            out.append("(");
            write_operand(out, l, ctx);
            out.append(" ");
            write_binop(out, *op);
            out.append(" ");
            write_operand(out, rr, ctx);
            out.append(")");
        },
        RValue::UnOp(op, o) => {
            write_unop(out, op);
            write_operand(out, o, ctx);
        },
        RValue::Cast(_, o, t) => {
            out.append("cast ");
            write_operand(out, o, ctx);
            out.append(" to ");
            write_type(out, t, ctx);
        },
        RValue::Ref(p) => {
            out.append("&");
            write_place(out, p);
        },
        RValue::Len(p) => {
            out.append("len(");
            write_place(out, p);
            out.append(")");
        },
        RValue::Aggregate(ops) => {
            out.append("aggregate (");
            let ghost owner = Operand::Call { func: 0, args: *ops };
            assert(decreases_to!(owner => owner->args));
            write_operands(out, Ghost(owner), ops, ctx);
            out.append(")");
        },
    }
}

/// Shows an operand.
pub struct OperandDisplayer<'a> {
    pub operand: &'a Operand,
    pub ctx: &'a Context,
}

impl<'a> OperandDisplayer<'a> {
    /// A displayer of `operand` with the functions of `ctx`.
    pub fn new(operand: &'a Operand, ctx: &'a Context) -> (r: Self)
        ensures
            r.operand == operand,
            r.ctx == ctx,
    {
        Self { operand, ctx }
    }

    /// The operand written out.
    pub fn to_string(&self) -> (r: String)
        requires
            calls_declared(*self.operand, *self.ctx),
        ensures
            r@ == operand_text(*self.operand, *self.ctx),
    {
        let mut out = String::new();
        write_operand(&mut out, self.operand, self.ctx);
        out
    }
}

impl Operand {
    /// A displayer of the operand with the functions of `ctx`.
    pub fn display<'a>(&'a self, ctx: &'a Context) -> (r: OperandDisplayer<'a>)
        ensures
            r.operand == self,
            r.ctx == ctx,
    {
        OperandDisplayer::new(self, ctx)
    }
}

/// Shows an rvalue.
pub struct RValueDisplayer<'a> {
    pub rvalue: &'a RValue,
    pub ctx: &'a Context,
}

impl<'a> RValueDisplayer<'a> {
    /// A displayer of `rvalue` with the functions and structs of `ctx`.
    pub fn new(rvalue: &'a RValue, ctx: &'a Context) -> (r: Self)
        ensures
            r.rvalue == rvalue,
            r.ctx == ctx,
    {
        Self { rvalue, ctx }
    }

    /// The rvalue written out.
    pub fn to_string(&self) -> (r: String)
        requires
            rvalue_declared(*self.rvalue, *self.ctx),
        ensures
            r@ == rvalue_text(*self.rvalue, *self.ctx),
    {
        let mut out = String::new();
        write_rvalue(&mut out, self.rvalue, self.ctx);
        out
    }
}

impl RValue {
    /// A displayer of the rvalue with the functions and structs of `ctx`.
    pub fn display<'a>(&'a self, ctx: &'a Context) -> (r: RValueDisplayer<'a>)
        ensures
            r.rvalue == self,
            r.ctx == ctx,
    {
        RValueDisplayer::new(self, ctx)
    }
}

impl UnOp {
    /// The symbol of the operator (`!` or `-`).
    pub fn to_string(&self) -> (r: String)
        ensures
            r@ == unop_text(*self),
    {
        let mut out = String::new();
        write_unop(&mut out, self);
        out
    }
}

impl BinOp {
    /// The symbol of the operator.
    pub fn to_string(&self) -> (r: String)
        ensures
            r@ == binop_text(*self),
    {
        let mut out = String::new();
        write_binop(&mut out, *self);
        out
    }
}

impl Place {
    /// The place written out, such as `*%1.2`.
    pub fn to_string(&self) -> (r: String)
        ensures
            r@ == place_text(*self),
    {
        let mut out = String::new();
        write_place(&mut out, self);
        out
    }
}

impl Constant {
    /// The constant written out.
    pub fn to_string(&self) -> (r: String)
        ensures
            r@ == constant_text(*self),
    {
        let mut out = String::new();
        write_constant(&mut out, self);
        out
    }
}

} // verus!
