//! Emission: the deterministic locals layout, and the linearisation of
//! the instruction tree back into an operator sequence.

use vstd::prelude::*;
use crate::types::{IdsToIndices, ModuleInfo, ValType};
use crate::err::ErrorKind;
use crate::encode::{spec_leb, Encoder};
use crate::function::{seq_reaches_key, strictly_sorted, LocalFunction, RefKind};
use crate::ir::{arena_wf, seq_children_ok, Instr, InstrSeq, MemArg};
use crate::ops::{BrTableData, MemImm, Operator, Value};

verus! {

/// The byte encoding a value type.
pub open spec fn spec_ty_byte(t: ValType) -> u8 {
    match t {
        ValType::I32 => 0x7f,
        ValType::I64 => 0x7e,
        ValType::F32 => 0x7d,
        ValType::F64 => 0x7c,
        ValType::V128 => 0x7b,
        ValType::Funcref => 0x70,
        ValType::Externref => 0x6f,
    }
}

/// Executable form of [`spec_ty_byte`].
pub fn ty_byte(t: ValType) -> (r: u8)
    ensures
        r == spec_ty_byte(t),
{
    match t {
        ValType::I32 => 0x7f,
        ValType::I64 => 0x7e,
        ValType::F32 => 0x7d,
        ValType::F64 => 0x7c,
        ValType::V128 => 0x7b,
        ValType::Funcref => 0x70,
        ValType::Externref => 0x6f,
    }
}

/// The body locals of one type: the used locals that are not arguments
/// and are declared with type `ty`, in their order in `used`.
pub open spec fn body_group(
    used: Seq<usize>,
    args: Seq<usize>,
    locals: Seq<ValType>,
    ty: ValType,
) -> Seq<usize> {
    used.filter(
        |l: usize| !args.contains(l) && l < locals.len() && locals[l as int] == ty,
    )
}

/// Ids paired with successive indices starting at `base`.
pub open spec fn numbered(s: Seq<usize>, base: int) -> Seq<(usize, usize)> {
    Seq::new(s.len(), |i: int| (s[i], (base + i) as usize))
}

/// The local index map: the arguments take the first indices in their
/// own order, then each type group's locals take successive indices, in
/// the fixed group order.
pub open spec fn spec_local_map(
    used: Seq<usize>,
    args: Seq<usize>,
    locals: Seq<ValType>,
) -> Seq<(usize, usize)> {
    let g0 = body_group(used, args, locals, ValType::I32);
    let g1 = body_group(used, args, locals, ValType::I64);
    let g2 = body_group(used, args, locals, ValType::F32);
    let g3 = body_group(used, args, locals, ValType::F64);
    let g4 = body_group(used, args, locals, ValType::V128);
    let g5 = body_group(used, args, locals, ValType::Funcref);
    let g6 = body_group(used, args, locals, ValType::Externref);
    let b0 = args.len() as int;
    let b1 = b0 + g0.len();
    let b2 = b1 + g1.len();
    let b3 = b2 + g2.len();
    let b4 = b3 + g3.len();
    let b5 = b4 + g4.len();
    let b6 = b5 + g5.len();
    numbered(args, 0) + numbered(g0, b0) + numbered(g1, b1) + numbered(g2, b2)
        + numbered(g3, b3) + numbered(g4, b4) + numbered(g5, b5) + numbered(g6, b6)
}

/// The bytes one type group contributes to the compact declaration:
/// nothing when empty, else its count and its type byte.
pub open spec fn group_bytes(g: Seq<usize>, t: ValType) -> Seq<u8> {
    if g.len() == 0 {
        Seq::empty()
    } else {
        spec_leb(g.len() as int) + seq![spec_ty_byte(t)]
    }
}

/// How many of the seven groups are non-empty.
pub open spec fn nonempty_groups(used: Seq<usize>, args: Seq<usize>, locals: Seq<ValType>) -> int {
    let c0: int = if body_group(used, args, locals, ValType::I32).len() > 0 { 1 } else { 0 };
    let c1: int = if body_group(used, args, locals, ValType::I64).len() > 0 { 1 } else { 0 };
    let c2: int = if body_group(used, args, locals, ValType::F32).len() > 0 { 1 } else { 0 };
    let c3: int = if body_group(used, args, locals, ValType::F64).len() > 0 { 1 } else { 0 };
    let c4: int = if body_group(used, args, locals, ValType::V128).len() > 0 { 1 } else { 0 };
    let c5: int = if body_group(used, args, locals, ValType::Funcref).len() > 0 { 1 } else { 0 };
    let c6: int = if body_group(used, args, locals, ValType::Externref).len() > 0 {
        1
    } else {
        0
    };
    c0 + c1 + c2 + c3 + c4 + c5 + c6
}

/// The whole compact locals declaration: the count of non-empty groups,
/// then each non-empty group's count and type byte, in the fixed order.
pub open spec fn spec_locals_decl(
    used: Seq<usize>,
    args: Seq<usize>,
    locals: Seq<ValType>,
) -> Seq<u8> {
    spec_leb(nonempty_groups(used, args, locals))
        + group_bytes(body_group(used, args, locals, ValType::I32), ValType::I32)
        + group_bytes(body_group(used, args, locals, ValType::I64), ValType::I64)
        + group_bytes(body_group(used, args, locals, ValType::F32), ValType::F32)
        + group_bytes(body_group(used, args, locals, ValType::F64), ValType::F64)
        + group_bytes(body_group(used, args, locals, ValType::V128), ValType::V128)
        + group_bytes(body_group(used, args, locals, ValType::Funcref), ValType::Funcref)
        + group_bytes(body_group(used, args, locals, ValType::Externref), ValType::Externref)
}

/// Whether a vector holds a given id.
fn contains_id(v: &Vec<usize>, x: usize) -> (r: bool)
    ensures
        r <==> v@.contains(x),
{
    let mut i: usize = 0;
    while i < v.len()
        invariant
            i <= v@.len(),
            forall|j: int| 0 <= j < i ==> v@[j] != x,
        decreases v@.len() - i,
    {
        if v[i] == x {
            proof {
                assert(v@[i as int] == x);
            }
            return true;
        }
        i += 1;
    }
    proof {
        assert(!v@.contains(x)) by {
            if v@.contains(x) {
                let w = choose|w: int| 0 <= w < v@.len() && v@[w] == x;
            }
        }
    }
    false
}

/// Collects one type group from the sorted used-locals vector.
#[verifier::loop_isolation(false)]
fn filter_group(
    used: &Vec<usize>,
    args: &Vec<usize>,
    module: &ModuleInfo,
    ty: ValType,
) -> (r: Vec<usize>)
    requires
        forall|l: usize| used@.contains(l) && !args@.contains(l)
            ==> l < module.locals@.len(),
    ensures
        r@ == body_group(used@, args@, module.locals@, ty),
{
    let mut r: Vec<usize> = Vec::new();
    proof {
        reveal(Seq::filter);
        assert(used@.subrange(0, 0) =~= Seq::<usize>::empty());
        assert(body_group(used@.subrange(0, 0), args@, module.locals@, ty)
            =~= Seq::<usize>::empty());
    }
    let mut i: usize = 0;
    while i < used.len()
        invariant
            i <= used@.len(),
            r@ == body_group(used@.subrange(0, i as int), args@, module.locals@, ty),
        decreases used@.len() - i,
    {
        let l = used[i];
        proof {
            assert(used@.contains(l)) by {
                assert(used@[i as int] == l);
            }
        }
        let in_args = contains_id(args, l);
        if !in_args {
            if module.locals[l] == ty {
                r.push(l);
            }
        }
        i += 1;
        proof {
            reveal(Seq::filter);
            let s1 = used@.subrange(0, i as int);
            assert(s1.drop_last() =~= used@.subrange(0, i as int - 1));
            assert(s1.last() == l);
            assert(r@ =~= body_group(s1, args@, module.locals@, ty));
        }
    }
    proof {
        assert(used@.subrange(0, used@.len() as int) =~= used@);
    }
    r
}

/// Appends one group's part of the index map, each id taking the next
/// free index.
#[verifier::loop_isolation(false)]
fn push_numbered(map: &mut Vec<(usize, usize)>, g: &Vec<usize>)
    ensures
        final(map)@ == old(map)@ + numbered(g@, old(map)@.len() as int),
{
    let ghost base = old(map)@.len() as int;
    let mut i: usize = 0;
    while i < g.len()
        invariant
            i <= g@.len(),
            map@ == old(map)@ + numbered(g@.subrange(0, i as int), base),
        decreases g@.len() - i,
    {
        let idx = map.len();
        map.push((g[i], idx));
        i += 1;
        proof {
            assert(map@ =~= old(map)@ + numbered(g@.subrange(0, i as int), base));
        }
    }
    proof {
        assert(g@.subrange(0, g@.len() as int) =~= g@);
        assert(final(map)@ =~= old(map)@ + numbered(g@, base));
    }
}

/// Appends one non-empty group's count and type byte, or nothing.
fn write_group(encoder: &mut Encoder, g: &Vec<usize>, t: ValType)
    ensures
        final(encoder).bytes@ == old(encoder).bytes@ + group_bytes(g@, t),
{
    if g.len() > 0 {
        encoder.uleb(g.len());
        encoder.byte(ty_byte(t));
        proof {
            assert(final(encoder).bytes@ =~= old(encoder).bytes@ + group_bytes(g@, t));
        }
    } else {
        proof {
            assert(final(encoder).bytes@ =~= old(encoder).bytes@ + group_bytes(g@, t));
        }
    }
}

/// Builds the id-to-index map from the used locals and the precomputed
/// groups.
#[verifier::loop_isolation(false)]
#[verifier::spinoff_prover]
fn build_local_map(
    args: &Vec<usize>,
    g0: &Vec<usize>,
    g1: &Vec<usize>,
    g2: &Vec<usize>,
    g3: &Vec<usize>,
    g4: &Vec<usize>,
    g5: &Vec<usize>,
    g6: &Vec<usize>,
) -> (map: Vec<(usize, usize)>)
    ensures
        map@ == numbered(args@, 0) + numbered(g0@, args@.len() as int)
            + numbered(g1@, (args@.len() + g0@.len()) as int)
            + numbered(g2@, (args@.len() + g0@.len() + g1@.len()) as int)
            + numbered(g3@, (args@.len() + g0@.len() + g1@.len() + g2@.len()) as int)
            + numbered(
                g4@,
                (args@.len() + g0@.len() + g1@.len() + g2@.len() + g3@.len()) as int,
            )
            + numbered(
                g5@,
                (args@.len() + g0@.len() + g1@.len() + g2@.len() + g3@.len()
                    + g4@.len()) as int,
            )
            + numbered(
                g6@,
                (args@.len() + g0@.len() + g1@.len() + g2@.len() + g3@.len() + g4@.len()
                    + g5@.len()) as int,
            ),
{
    let mut map: Vec<(usize, usize)> = Vec::new();
    let mut i: usize = 0;
    while i < args.len()
        invariant
            i <= args@.len(),
            map@ == numbered(args@.subrange(0, i as int), 0),
        decreases args@.len() - i,
    {
        let idx = map.len();
        map.push((args[i], idx));
        i += 1;
        proof {
            assert(map@ =~= numbered(args@.subrange(0, i as int), 0));
        }
    }
    proof {
        assert(args@.subrange(0, args@.len() as int) =~= args@);
        assert(map@ =~= numbered(args@, 0));
    }
    push_numbered(&mut map, g0);
    push_numbered(&mut map, g1);
    push_numbered(&mut map, g2);
    push_numbered(&mut map, g3);
    push_numbered(&mut map, g4);
    push_numbered(&mut map, g5);
    push_numbered(&mut map, g6);
    map
}

/// Writes the whole compact locals declaration for the given groups.
#[verifier::spinoff_prover]
#[verifier::rlimit(100)]
fn write_locals_decl(
    encoder: &mut Encoder,
    used: Ghost<Seq<usize>>,
    args: Ghost<Seq<usize>>,
    locals: Ghost<Seq<ValType>>,
    g0: &Vec<usize>,
    g1: &Vec<usize>,
    g2: &Vec<usize>,
    g3: &Vec<usize>,
    g4: &Vec<usize>,
    g5: &Vec<usize>,
    g6: &Vec<usize>,
)
    requires
        g0@ == body_group(used@, args@, locals@, ValType::I32),
        g1@ == body_group(used@, args@, locals@, ValType::I64),
        g2@ == body_group(used@, args@, locals@, ValType::F32),
        g3@ == body_group(used@, args@, locals@, ValType::F64),
        g4@ == body_group(used@, args@, locals@, ValType::V128),
        g5@ == body_group(used@, args@, locals@, ValType::Funcref),
        g6@ == body_group(used@, args@, locals@, ValType::Externref),
    ensures
        final(encoder).bytes@ == old(encoder).bytes@ + spec_locals_decl(used@, args@, locals@),
{
    let mut count: usize = 0;
    if g0.len() > 0 {
        count += 1;
    }
    if g1.len() > 0 {
        count += 1;
    }
    if g2.len() > 0 {
        count += 1;
    }
    if g3.len() > 0 {
        count += 1;
    }
    if g4.len() > 0 {
        count += 1;
    }
    if g5.len() > 0 {
        count += 1;
    }
    if g6.len() > 0 {
        count += 1;
    }
    proof {
        assert(count as int == nonempty_groups(used@, args@, locals@));
    }
    encoder.uleb(count);
    write_group(encoder, g0, ValType::I32);
    write_group(encoder, g1, ValType::I64);
    write_group(encoder, g2, ValType::F32);
    write_group(encoder, g3, ValType::F64);
    write_group(encoder, g4, ValType::V128);
    write_group(encoder, g5, ValType::Funcref);
    write_group(encoder, g6, ValType::Externref);
}

impl LocalFunction {
    /// Emit this function's compact locals declaration and assign the
    /// numeric indices of its locals.  Arguments take the first indices;
    /// the remaining used locals follow, grouped by type in the fixed
    /// group order, so that repeat runs produce byte-identical output.
    /// Returns the set of used locals (strictly sorted) and the
    /// id-to-index map.
    #[verifier::loop_isolation(false)]
    #[verifier::rlimit(100)]
    #[verifier::spinoff_prover]
    pub fn emit_locals(
        &self,
        module: &ModuleInfo,
        encoder: &mut Encoder,
    ) -> (r: (Vec<usize>, Vec<(usize, usize)>))
        requires
            self.wf(),
            forall|l: usize|
                seq_reaches_key(
                    self.builder.arena@,
                    self.builder.entry->Some_0 as int,
                    RefKind::Locals,
                    l,
                ) && !self.args@.contains(l) ==> l < module.locals@.len(),
        ensures
            strictly_sorted(r.0@),
            forall|l: usize| r.0@.contains(l) <==> seq_reaches_key(
                self.builder.arena@,
                self.builder.entry->Some_0 as int,
                RefKind::Locals,
                l,
            ),
            r.1@ == spec_local_map(r.0@, self.args@, module.locals@),
            final(encoder).bytes@ == old(encoder).bytes@
                + spec_locals_decl(r.0@, self.args@, module.locals@),
    {
        let used = self.used_locals();
        let g0 = filter_group(&used, &self.args, module, ValType::I32);
        let g1 = filter_group(&used, &self.args, module, ValType::I64);
        let g2 = filter_group(&used, &self.args, module, ValType::F32);
        let g3 = filter_group(&used, &self.args, module, ValType::F64);
        let g4 = filter_group(&used, &self.args, module, ValType::V128);
        let g5 = filter_group(&used, &self.args, module, ValType::Funcref);
        let g6 = filter_group(&used, &self.args, module, ValType::Externref);
        let map = build_local_map(&self.args, &g0, &g1, &g2, &g3, &g4, &g5, &g6);
        proof {
            assert(map@ == spec_local_map(used@, self.args@, module.locals@));
        }
        write_locals_decl(
            encoder,
            Ghost(used@),
            Ghost(self.args@),
            Ghost(module.locals@),
            &g0,
            &g1,
            &g2,
            &g3,
            &g4,
            &g5,
            &g6,
        );
        (used, map)
    }
}


/// One emitted operator, at the ghost level: as the executable
/// operator, except that a `v128` constant is its packed value and a
/// `br_table`'s depth list is a sequence.
#[verifier::ext_equal]
pub ghost enum GOp {
    Plain(Operator),
    Vector(u128),
    Table { labels: Seq<u32>, default: u32 },
}

/// The ghost form of an emitted operator.
pub open spec fn abs_op(o: Operator) -> GOp {
    match o {
        Operator::V128Const(b) => GOp::Vector(crate::ops::spec_v128_val(b@) as u128),
        Operator::BrTable(t) => GOp::Table { labels: t.labels@, default: t.default },
        _ => GOp::Plain(o),
    }
}

/// The ghost form of an operator stream.
pub open spec fn abs_stream(s: Seq<(Operator, u32)>) -> Seq<(GOp, u32)> {
    Seq::new(s.len(), |i: int| (abs_op(s[i].0), s[i].1))
}

/// What reverse-resolving an id yields: its wire index, or an unknown
/// index for an id the map does not cover.
pub open spec fn spec_rev_index(v: Seq<u32>, id: usize) -> Result<u32, ErrorKind> {
    if id < v.len() {
        Ok(v[id as int])
    } else {
        Err(ErrorKind::UnknownIndex)
    }
}

/// The first entry of the index map carrying the id, searched from
/// position `i`.
pub open spec fn spec_local_index_from(
    map: Seq<(usize, usize)>,
    id: usize,
    i: int,
) -> Result<usize, ErrorKind>
    decreases map.len() - i
        when 0 <= i <= map.len()
{
    if i >= map.len() {
        Err(ErrorKind::UnknownIndex)
    } else if map[i].0 == id {
        Ok(map[i].1)
    } else {
        spec_local_index_from(map, id, i + 1)
    }
}

/// The wire index the id-to-index map assigns a local id.
pub open spec fn spec_local_index(map: Seq<(usize, usize)>, id: usize) -> Result<
    usize,
    ErrorKind,
> {
    spec_local_index_from(map, id, 0)
}

/// The branch depth of a target sequence, searched from depth `d`: its
/// distance from the top of the stack of open sequences.
pub open spec fn spec_label_depth_from(
    labels: Seq<usize>,
    target: usize,
    d: int,
) -> Result<u32, ErrorKind>
    decreases labels.len() - d
        when 0 <= d <= labels.len()
{
    if d >= labels.len() {
        Err(ErrorKind::UnknownLabel)
    } else if labels[labels.len() - 1 - d] == target {
        Ok(d as u32)
    } else {
        spec_label_depth_from(labels, target, d + 1)
    }
}

/// The branch depth of a target sequence among the open labels.
pub open spec fn spec_label_depth(labels: Seq<usize>, target: usize) -> Result<u32, ErrorKind> {
    spec_label_depth_from(labels, target, 0)
}

/// The alignment exponent recovered from a byte alignment by repeated
/// halving, saturated at 32.
pub open spec fn spec_mem_flags(a: u32, f: u32) -> u32
    decreases a,
{
    if a > 1 {
        spec_mem_flags(
            a / 2,
            if f < 32 {
                (f + 1) as u32
            } else {
                f
            },
        )
    } else {
        f
    }
}

/// The wire memory immediate of an access at IR level.
pub open spec fn spec_encode_mem_arg(arg: MemArg) -> MemImm {
    MemImm { flags: spec_mem_flags(arg.align, 0), offset: arg.offset }
}

/// The branch depths of a `br_table`'s target list, front to back.
pub open spec fn spec_depths(labels: Seq<usize>, blocks: Seq<usize>) -> Result<
    Seq<u32>,
    ErrorKind,
>
    decreases blocks.len(),
{
    if blocks.len() == 0 {
        Ok(Seq::empty())
    } else {
        match spec_label_depth(labels, blocks[0]) {
            Err(k) => Err(k),
            Ok(d) => match spec_depths(labels, blocks.drop_first()) {
                Err(k) => Err(k),
                Ok(rest) => Ok(seq![d] + rest),
            },
        }
    }
}

/// The linearisation of the first `j` instructions of the sequence
/// stored at `s`, with `labels` the stack of open sequences: each
/// instruction becomes its wire operator, and a structured instruction
/// brackets its nested sequences with `block`/`loop`/`if`/`else` and
/// `end`, the nested sequence emitted under its own label.  The result
/// is the emitted operator stream, or the first failure: an id the
/// reverse maps do not cover, or a branch target that is not an open
/// label.  This is the function `emit_instructions` computes.
pub open spec fn spec_emit_upto(
    arena: Seq<InstrSeq>,
    ids: IdsToIndices,
    lmap: Seq<(usize, usize)>,
    labels: Seq<usize>,
    s: int,
    j: int,
) -> Result<Seq<(GOp, u32)>, ErrorKind>
    decreases arena.len() - s, j
        when arena_wf(arena) && 0 <= s < arena.len() && 0 <= j <= arena[s].instrs@.len()
        via spec_emit_upto_dec
{
    if j <= 0 {
        Ok(Seq::empty())
    } else {
        match spec_emit_upto(arena, ids, lmap, labels, s, j - 1) {
            Err(k) => Err(k),
            Ok(pre) => {
                let i = arena[s].instrs@[j - 1].0;
                let loc = arena[s].instrs@[j - 1].1;
                match i {
                    Instr::Const(v) => match v {
                        Value::V128(x) => Ok(pre + seq![(GOp::Vector(x), loc)]),
                        _ => Ok(pre + seq![(GOp::Plain(Operator::Const(v)), loc)]),
                    },
                    Instr::Unop(u) => Ok(pre + seq![(GOp::Plain(Operator::Unop(u)), loc)]),
                    Instr::Binop(b) => Ok(pre + seq![(GOp::Plain(Operator::Binop(b)), loc)]),
                    Instr::Drop => Ok(pre + seq![(GOp::Plain(Operator::Drop), loc)]),
                    Instr::Select(t) => match t {
                        None => Ok(pre + seq![(GOp::Plain(Operator::Select), loc)]),
                        Some(ty) => Ok(pre + seq![(GOp::Plain(Operator::TypedSelect(ty)), loc)]),
                    },
                    Instr::Return => Ok(pre + seq![(GOp::Plain(Operator::Return), loc)]),
                    Instr::Unreachable => Ok(
                        pre + seq![(GOp::Plain(Operator::Unreachable), loc)],
                    ),
                    Instr::Block(c) => match spec_emit_upto(
                        arena,
                        ids,
                        lmap,
                        labels.push(c),
                        c as int,
                        arena[c as int].instrs@.len() as int,
                    ) {
                        Err(k) => Err(k),
                        Ok(body) => Ok(
                            pre + seq![(GOp::Plain(Operator::Block(arena[c as int].ty)), loc)]
                                + body + seq![(GOp::Plain(Operator::End), loc)],
                        ),
                    },
                    Instr::Loop(c) => match spec_emit_upto(
                        arena,
                        ids,
                        lmap,
                        labels.push(c),
                        c as int,
                        arena[c as int].instrs@.len() as int,
                    ) {
                        Err(k) => Err(k),
                        Ok(body) => Ok(
                            pre + seq![(GOp::Plain(Operator::Loop(arena[c as int].ty)), loc)]
                                + body + seq![(GOp::Plain(Operator::End), loc)],
                        ),
                    },
                    Instr::IfElse { consequent, alternative } => match spec_emit_upto(
                        arena,
                        ids,
                        lmap,
                        labels.push(consequent),
                        consequent as int,
                        arena[consequent as int].instrs@.len() as int,
                    ) {
                        Err(k) => Err(k),
                        Ok(cbody) => if arena[alternative as int].instrs@.len() > 0 {
                            match spec_emit_upto(
                                arena,
                                ids,
                                lmap,
                                labels.push(alternative),
                                alternative as int,
                                arena[alternative as int].instrs@.len() as int,
                            ) {
                                Err(k) => Err(k),
                                Ok(abody) => Ok(
                                    pre + seq![
                                        (
                                            GOp::Plain(
                                                Operator::If(arena[consequent as int].ty),
                                            ),
                                            loc,
                                        ),
                                    ] + cbody + seq![(GOp::Plain(Operator::Else), loc)] + abody
                                        + seq![(GOp::Plain(Operator::End), loc)],
                                ),
                            }
                        } else {
                            Ok(
                                pre + seq![
                                    (GOp::Plain(Operator::If(arena[consequent as int].ty)), loc),
                                ] + cbody + seq![(GOp::Plain(Operator::End), loc)],
                            )
                        },
                    },
                    Instr::Br(t) => match spec_label_depth(labels, t) {
                        Err(k) => Err(k),
                        Ok(d) => Ok(pre + seq![(GOp::Plain(Operator::Br(d)), loc)]),
                    },
                    Instr::BrIf(t) => match spec_label_depth(labels, t) {
                        Err(k) => Err(k),
                        Ok(d) => Ok(pre + seq![(GOp::Plain(Operator::BrIf(d)), loc)]),
                    },
                    Instr::BrTable { blocks, default } => match spec_depths(labels, blocks@) {
                        Err(k) => Err(k),
                        Ok(ds) => match spec_label_depth(labels, default) {
                            Err(k) => Err(k),
                            Ok(dd) => Ok(
                                pre + seq![(GOp::Table { labels: ds, default: dd }, loc)],
                            ),
                        },
                    },
                    Instr::Call(func) => match spec_rev_index(ids.funcs@, func) {
                        Err(k) => Err(k),
                        Ok(fi) => Ok(pre + seq![(GOp::Plain(Operator::Call(fi)), loc)]),
                    },
                    Instr::CallIndirect { ty, table } => match spec_rev_index(ids.types@, ty) {
                        Err(k) => Err(k),
                        Ok(ti) => match spec_rev_index(ids.tables@, table) {
                            Err(k) => Err(k),
                            Ok(tb) => Ok(
                                pre + seq![
                                    (
                                        GOp::Plain(
                                            Operator::CallIndirect {
                                                type_index: ti,
                                                table_index: tb,
                                            },
                                        ),
                                        loc,
                                    ),
                                ],
                            ),
                        },
                    },
                    Instr::LocalGet(l) => match spec_local_index(lmap, l) {
                        Err(k) => Err(k),
                        Ok(idx) => Ok(
                            pre + seq![(GOp::Plain(Operator::LocalGet(idx as u32)), loc)],
                        ),
                    },
                    Instr::LocalSet(l) => match spec_local_index(lmap, l) {
                        Err(k) => Err(k),
                        Ok(idx) => Ok(
                            pre + seq![(GOp::Plain(Operator::LocalSet(idx as u32)), loc)],
                        ),
                    },
                    Instr::LocalTee(l) => match spec_local_index(lmap, l) {
                        Err(k) => Err(k),
                        Ok(idx) => Ok(
                            pre + seq![(GOp::Plain(Operator::LocalTee(idx as u32)), loc)],
                        ),
                    },
                    Instr::GlobalGet(g) => match spec_rev_index(ids.globals@, g) {
                        Err(k) => Err(k),
                        Ok(gi) => Ok(pre + seq![(GOp::Plain(Operator::GlobalGet(gi)), loc)]),
                    },
                    Instr::GlobalSet(g) => match spec_rev_index(ids.globals@, g) {
                        Err(k) => Err(k),
                        Ok(gi) => Ok(pre + seq![(GOp::Plain(Operator::GlobalSet(gi)), loc)]),
                    },
                    Instr::Load { memory: _, arg, kind } => Ok(
                        pre + seq![
                            (
                                GOp::Plain(
                                    Operator::Load { memarg: spec_encode_mem_arg(arg), kind },
                                ),
                                loc,
                            ),
                        ],
                    ),
                    Instr::Store { memory: _, arg, kind } => Ok(
                        pre + seq![
                            (
                                GOp::Plain(
                                    Operator::Store { memarg: spec_encode_mem_arg(arg), kind },
                                ),
                                loc,
                            ),
                        ],
                    ),
                    Instr::MemorySize(_) => Ok(
                        pre + seq![(GOp::Plain(Operator::MemorySize { reserved: 0 }), loc)],
                    ),
                    Instr::MemoryGrow(_) => Ok(
                        pre + seq![(GOp::Plain(Operator::MemoryGrow { reserved: 0 }), loc)],
                    ),
                    Instr::MemoryInit { memory: _, data } => match spec_rev_index(
                        ids.data@,
                        data,
                    ) {
                        Err(k) => Err(k),
                        Ok(di) => Ok(
                            pre + seq![(GOp::Plain(Operator::MemoryInit { segment: di }), loc)],
                        ),
                    },
                    Instr::DataDrop(data) => match spec_rev_index(ids.data@, data) {
                        Err(k) => Err(k),
                        Ok(di) => Ok(
                            pre + seq![(GOp::Plain(Operator::DataDrop { segment: di }), loc)],
                        ),
                    },
                    Instr::MemoryCopy { .. } => Ok(
                        pre + seq![(GOp::Plain(Operator::MemoryCopy), loc)],
                    ),
                    Instr::MemoryFill(_) => Ok(
                        pre + seq![(GOp::Plain(Operator::MemoryFill), loc)],
                    ),
                    Instr::AtomicFence => Ok(
                        pre + seq![(GOp::Plain(Operator::AtomicFence { flags: 0 }), loc)],
                    ),
                    Instr::AtomicRmw { memory: _, arg, op, width } => Ok(
                        pre + seq![
                            (
                                GOp::Plain(
                                    Operator::AtomicRmw {
                                        memarg: spec_encode_mem_arg(arg),
                                        op,
                                        width,
                                    },
                                ),
                                loc,
                            ),
                        ],
                    ),
                    Instr::Cmpxchg { memory: _, arg, width } => Ok(
                        pre + seq![
                            (
                                GOp::Plain(
                                    Operator::Cmpxchg {
                                        memarg: spec_encode_mem_arg(arg),
                                        width,
                                    },
                                ),
                                loc,
                            ),
                        ],
                    ),
                    Instr::AtomicNotify { memory: _, arg } => Ok(
                        pre + seq![
                            (
                                GOp::Plain(
                                    Operator::AtomicNotify { memarg: spec_encode_mem_arg(arg) },
                                ),
                                loc,
                            ),
                        ],
                    ),
                    Instr::AtomicWait { memory: _, arg, sixty_four } => Ok(
                        pre + seq![
                            (
                                GOp::Plain(
                                    Operator::AtomicWait {
                                        memarg: spec_encode_mem_arg(arg),
                                        sixty_four,
                                    },
                                ),
                                loc,
                            ),
                        ],
                    ),
                    Instr::TableGet(t) => match spec_rev_index(ids.tables@, t) {
                        Err(k) => Err(k),
                        Ok(ti) => Ok(pre + seq![(GOp::Plain(Operator::TableGet(ti)), loc)]),
                    },
                    Instr::TableSet(t) => match spec_rev_index(ids.tables@, t) {
                        Err(k) => Err(k),
                        Ok(ti) => Ok(pre + seq![(GOp::Plain(Operator::TableSet(ti)), loc)]),
                    },
                    Instr::TableGrow(t) => match spec_rev_index(ids.tables@, t) {
                        Err(k) => Err(k),
                        Ok(ti) => Ok(pre + seq![(GOp::Plain(Operator::TableGrow(ti)), loc)]),
                    },
                    Instr::TableSize(t) => match spec_rev_index(ids.tables@, t) {
                        Err(k) => Err(k),
                        Ok(ti) => Ok(pre + seq![(GOp::Plain(Operator::TableSize(ti)), loc)]),
                    },
                    Instr::TableFill(t) => match spec_rev_index(ids.tables@, t) {
                        Err(k) => Err(k),
                        Ok(ti) => Ok(pre + seq![(GOp::Plain(Operator::TableFill(ti)), loc)]),
                    },
                    Instr::RefNull(t) => Ok(pre + seq![(GOp::Plain(Operator::RefNull(t)), loc)]),
                    Instr::RefIsNull(t) => Ok(
                        pre + seq![(GOp::Plain(Operator::RefIsNull(t)), loc)],
                    ),
                    Instr::RefFunc(func) => match spec_rev_index(ids.funcs@, func) {
                        Err(k) => Err(k),
                        Ok(fi) => Ok(pre + seq![(GOp::Plain(Operator::RefFunc(fi)), loc)]),
                    },
                    Instr::V128Bitselect => Ok(
                        pre + seq![(GOp::Plain(Operator::V128Bitselect), loc)],
                    ),
                    Instr::V128Swizzle => Ok(
                        pre + seq![(GOp::Plain(Operator::V128Swizzle), loc)],
                    ),
                    Instr::V128Shuffle { lanes } => Ok(
                        pre + seq![(GOp::Plain(Operator::V128Shuffle { lanes }), loc)],
                    ),
                    Instr::LoadSimd { memory: _, arg, kind } => Ok(
                        pre + seq![
                            (
                                GOp::Plain(
                                    Operator::LoadSimd {
                                        memarg: spec_encode_mem_arg(arg),
                                        kind,
                                    },
                                ),
                                loc,
                            ),
                        ],
                    ),
                    Instr::TableCopy { src, dst } => match spec_rev_index(ids.tables@, src) {
                        Err(k) => Err(k),
                        Ok(si) => match spec_rev_index(ids.tables@, dst) {
                            Err(k) => Err(k),
                            Ok(di) => Ok(
                                pre + seq![
                                    (
                                        GOp::Plain(
                                            Operator::TableCopy {
                                                src_table: si,
                                                dst_table: di,
                                            },
                                        ),
                                        loc,
                                    ),
                                ],
                            ),
                        },
                    },
                    Instr::TableInit { elem, table } => match spec_rev_index(
                        ids.elements@,
                        elem,
                    ) {
                        Err(k) => Err(k),
                        Ok(ei) => match spec_rev_index(ids.tables@, table) {
                            Err(k) => Err(k),
                            Ok(ti) => Ok(
                                pre + seq![
                                    (
                                        GOp::Plain(
                                            Operator::TableInit { segment: ei, table: ti },
                                        ),
                                        loc,
                                    ),
                                ],
                            ),
                        },
                    },
                    Instr::ElemDrop(elem) => match spec_rev_index(ids.elements@, elem) {
                        Err(k) => Err(k),
                        Ok(ei) => Ok(
                            pre + seq![(GOp::Plain(Operator::ElemDrop { segment: ei }), loc)],
                        ),
                    },
                }
            },
        }
    }
}

#[via_fn]
proof fn spec_emit_upto_dec(
    arena: Seq<InstrSeq>,
    ids: IdsToIndices,
    lmap: Seq<(usize, usize)>,
    labels: Seq<usize>,
    s: int,
    j: int,
) {
    if arena_wf(arena) && 0 <= s < arena.len() && 0 < j <= arena[s].instrs@.len() {
        assert(seq_children_ok(arena[s], s, arena.len() as int));
        let i = arena[s].instrs@[j - 1].0;
        match i {
            Instr::Block(c) => {
                assert(i.children()[0] == c);
                assert(s < c < arena.len());
            }
            Instr::Loop(c) => {
                assert(i.children()[0] == c);
                assert(s < c < arena.len());
            }
            Instr::IfElse { consequent, alternative } => {
                assert(i.children()[0] == consequent);
                assert(i.children()[1] == alternative);
                assert(s < consequent < arena.len());
                assert(s < alternative < arena.len());
            }
            _ => {}
        }
    }
}

/// The linearisation of the whole sequence stored at `s`.
pub open spec fn spec_emit_seq(
    arena: Seq<InstrSeq>,
    ids: IdsToIndices,
    lmap: Seq<(usize, usize)>,
    labels: Seq<usize>,
    s: int,
) -> Result<Seq<(GOp, u32)>, ErrorKind> {
    spec_emit_upto(arena, ids, lmap, labels, s, arena[s].instrs@.len() as int)
}

/// A failed prefix fails the whole sequence, with the same kind.
pub proof fn lemma_upto_err(
    arena: Seq<InstrSeq>,
    ids: IdsToIndices,
    lmap: Seq<(usize, usize)>,
    labels: Seq<usize>,
    s: int,
    j1: int,
    j2: int,
)
    requires
        arena_wf(arena),
        0 <= s < arena.len(),
        0 <= j1 <= j2 <= arena[s].instrs@.len(),
        spec_emit_upto(arena, ids, lmap, labels, s, j1) is Err,
    ensures
        spec_emit_upto(arena, ids, lmap, labels, s, j2)
            == spec_emit_upto(arena, ids, lmap, labels, s, j1),
    decreases j2 - j1,
{
    if j2 > j1 {
        lemma_upto_err(arena, ids, lmap, labels, s, j1, j2 - 1);
    }
}

/// Appending one operator appends its ghost form to the stream.
pub proof fn lemma_abs_push(v: Seq<(Operator, u32)>, o: Operator, loc: u32)
    ensures
        abs_stream(v.push((o, loc))) == abs_stream(v) + seq![(abs_op(o), loc)],
{
    assert(abs_stream(v.push((o, loc))) =~= abs_stream(v) + seq![(abs_op(o), loc)]);
}

/// Concatenation of streams is associative.
pub proof fn lemma_seq_assoc<A>(a: Seq<A>, b: Seq<A>, c: Seq<A>)
    ensures
        (a + b) + c == a + (b + c),
{
    assert((a + b) + c =~= a + (b + c));
}

/// Reverse-resolves an id to its wire index.
fn rev_index(v: &Vec<u32>, id: usize) -> (r: Result<u32, ErrorKind>)
    ensures
        (r is Ok <==> id < v@.len()),
        r is Ok ==> r->Ok_0 == v@[id as int],
        r is Err ==> r->Err_0 == ErrorKind::UnknownIndex,
{
    if id < v.len() {
        Ok(v[id])
    } else {
        Err(ErrorKind::UnknownIndex)
    }
}

/// Looks a local id up in the index map produced by the locals emitter.
#[verifier::loop_isolation(false)]
fn local_index(map: &Vec<(usize, usize)>, id: usize) -> (r: Result<usize, ErrorKind>)
    ensures
        r == spec_local_index(map@, id),
        r is Err ==> r->Err_0 == ErrorKind::UnknownIndex,
{
    let mut i: usize = 0;
    while i < map.len()
        invariant
            i <= map@.len(),
            spec_local_index_from(map@, id, i as int) == spec_local_index(map@, id),
        decreases map@.len() - i,
    {
        if map[i].0 == id {
            return Ok(map[i].1);
        }
        i += 1;
    }
    Err(ErrorKind::UnknownIndex)
}

/// The branch depth of a target sequence: its distance from the top of
/// the stack of open sequences.
#[verifier::loop_isolation(false)]
fn label_depth(labels: &Vec<usize>, target: usize) -> (r: Result<u32, ErrorKind>)
    ensures
        r == spec_label_depth(labels@, target),
        r is Err ==> r->Err_0 == ErrorKind::UnknownLabel,
{
    let mut d: usize = 0;
    while d < labels.len()
        invariant
            d <= labels@.len(),
            spec_label_depth_from(labels@, target, d as int) == spec_label_depth(
                labels@,
                target,
            ),
        decreases labels@.len() - d,
    {
        if labels[labels.len() - 1 - d] == target {
            return Ok(#[verifier::truncate] (d as u32));
        }
        d += 1;
    }
    Err(ErrorKind::UnknownLabel)
}

/// The memory immediate of an access at IR level: the alignment turned
/// back into its exponent.
#[verifier::loop_isolation(false)]
fn encode_mem_arg(arg: &MemArg) -> (r: MemImm)
    ensures
        r == spec_encode_mem_arg(*arg),
{
    let mut flags: u32 = 0;
    let mut a: u32 = arg.align;
    while a > 1
        invariant
            flags <= 32,
            spec_mem_flags(a, flags) == spec_mem_flags(arg.align, 0),
        decreases a,
    {
        a = a / 2;
        if flags < 32 {
            flags = flags + 1;
        }
    }
    MemImm { flags, offset: arg.offset }
}

/// Linearises one sequence: its instructions in order, structured
/// children between their delimiters.
#[verifier::loop_isolation(false)]
#[verifier::rlimit(100)]
#[verifier::spinoff_prover]
#[verifier::loop_isolation(false)]
#[verifier::rlimit(100)]
#[verifier::spinoff_prover]
fn emit_seq(
    f: &LocalFunction,
    ids: &IdsToIndices,
    local_indices: &Vec<(usize, usize)>,
    labels: &mut Vec<usize>,
    s: usize,
    dst: &mut Vec<(Operator, u32)>,
) -> (r: Result<(), ErrorKind>)
    requires
        f.wf(),
        s < f.builder.arena@.len(),
    ensures
        final(labels)@ == old(labels)@,
        final(dst)@.len() >= old(dst)@.len(),
        ({
            let se = spec_emit_seq(
                f.builder.arena@,
                *ids,
                local_indices@,
                old(labels)@,
                s as int,
            );
            &&& (r is Ok <==> se is Ok)
            &&& (r is Ok ==> abs_stream(final(dst)@) == abs_stream(old(dst)@) + se->Ok_0)
            &&& (r is Err ==> r->Err_0 == se->Err_0)
        }),
    decreases f.builder.arena@.len() - s, 1nat,
{
    let ghost base = abs_stream(old(dst)@);
    let seq = &f.builder.arena[s];
    let mut j: usize = 0;
    proof {
        assert(abs_stream(dst@) =~= base + Seq::<(GOp, u32)>::empty());
    }
    while j < seq.instrs.len()
        invariant
            labels@ == old(labels)@,
            dst@.len() >= old(dst)@.len(),
            j <= seq.instrs@.len(),
            seq == &f.builder.arena@[s as int],
            spec_emit_upto(
                f.builder.arena@,
                *ids,
                local_indices@,
                labels@,
                s as int,
                j as int,
            ) is Ok,
            abs_stream(dst@) == base + spec_emit_upto(
                f.builder.arena@,
                *ids,
                local_indices@,
                labels@,
                s as int,
                j as int,
            )->Ok_0,
        decreases seq.instrs@.len() - j,
    {
        proof {
            assert(crate::ir::seq_children_ok(
                f.builder.arena@[s as int],
                s as int,
                f.builder.arena@.len() as int,
            ));
        }
        match emit_instr(
            f,
            ids,
            local_indices,
            labels,
            s,
            &seq.instrs[j].0,
            seq.instrs[j].1,
            dst,
            Ghost(base),
            Ghost(j as int),
        ) {
            Ok(()) => {}
            Err(k) => {
                proof {
                    lemma_upto_err(
                        f.builder.arena@,
                        *ids,
                        local_indices@,
                        old(labels)@,
                        s as int,
                        j as int + 1,
                        f.builder.arena@[s as int].instrs@.len() as int,
                    );
                }
                return Err(k);
            }
        }
        j += 1;
    }
    Ok(())
}

/// Emits one instruction, recursing into the nested sequences of
/// structured control.  `pos` is the instruction's position in the
/// sequence stored at `s`; `base` is the ghost stream the destination
/// held before the sequence's emission began.
#[verifier::loop_isolation(false)]
#[verifier::rlimit(100)]
#[verifier::spinoff_prover]
fn emit_instr(
    f: &LocalFunction,
    ids: &IdsToIndices,
    local_indices: &Vec<(usize, usize)>,
    labels: &mut Vec<usize>,
    s: usize,
    instr: &Instr,
    loc: u32,
    dst: &mut Vec<(Operator, u32)>,
    base: Ghost<Seq<(GOp, u32)>>,
    pos: Ghost<int>,
) -> (r: Result<(), ErrorKind>)
    requires
        f.wf(),
        s < f.builder.arena@.len(),
        forall|k: int| 0 <= k < instr.children().len()
            ==> (s as int) < #[trigger] instr.children()[k] < f.builder.arena@.len(),
        0 <= pos@ < f.builder.arena@[s as int].instrs@.len(),
        f.builder.arena@[s as int].instrs@[pos@] == (*instr, loc),
        spec_emit_upto(
            f.builder.arena@,
            *ids,
            local_indices@,
            old(labels)@,
            s as int,
            pos@,
        ) is Ok,
        abs_stream(old(dst)@) == base@ + spec_emit_upto(
            f.builder.arena@,
            *ids,
            local_indices@,
            old(labels)@,
            s as int,
            pos@,
        )->Ok_0,
    ensures
        final(labels)@ == old(labels)@,
        final(dst)@.len() >= old(dst)@.len(),
        ({
            let post = spec_emit_upto(
                f.builder.arena@,
                *ids,
                local_indices@,
                old(labels)@,
                s as int,
                pos@ + 1,
            );
            &&& (r is Ok <==> post is Ok)
            &&& (r is Ok ==> abs_stream(final(dst)@) == base@ + post->Ok_0)
            &&& (r is Err ==> r->Err_0 == post->Err_0)
        }),
    decreases f.builder.arena@.len() - s, 0nat,
{
    let ghost pre = spec_emit_upto(
        f.builder.arena@,
        *ids,
        local_indices@,
        old(labels)@,
        s as int,
        pos@,
    )->Ok_0;
    match instr {
        Instr::Block(c) => {
            proof {
                assert(instr.children()[0] == *c);
            }
            let bt = f.builder.arena[*c].ty;
            let o1 = Operator::Block(bt);
            let ghost go1 = o1;
            dst.push((o1, loc));
            proof {
                lemma_abs_push(old(dst)@, go1, loc);
            }
            labels.push(*c);
            let res = emit_seq(f, ids, local_indices, labels, *c, dst);
            let popped = labels.pop();
            proof {
                assert(labels@ =~= old(labels)@);
            }
            match res {
                Ok(()) => {}
                Err(k) => {
                    return Err(k);
                }
            }
            let ghost mid2 = dst@;
            let o2 = Operator::End;
            let ghost go2 = o2;
            dst.push((o2, loc));
            proof {
                lemma_abs_push(mid2, go2, loc);
                let body = spec_emit_seq(
                    f.builder.arena@,
                    *ids,
                    local_indices@,
                    old(labels)@.push(*c),
                    *c as int,
                )->Ok_0;
                lemma_seq_assoc(base@, pre, seq![(abs_op(go1), loc)]);
                lemma_seq_assoc(base@, pre + seq![(abs_op(go1), loc)], body);
                lemma_seq_assoc(
                    base@,
                    pre + seq![(abs_op(go1), loc)] + body,
                    seq![(abs_op(go2), loc)],
                );
            }
        }
        Instr::Loop(c) => {
            proof {
                assert(instr.children()[0] == *c);
            }
            let bt = f.builder.arena[*c].ty;
            let o1 = Operator::Loop(bt);
            let ghost go1 = o1;
            dst.push((o1, loc));
            proof {
                lemma_abs_push(old(dst)@, go1, loc);
            }
            labels.push(*c);
            let res = emit_seq(f, ids, local_indices, labels, *c, dst);
            let popped = labels.pop();
            proof {
                assert(labels@ =~= old(labels)@);
            }
            match res {
                Ok(()) => {}
                Err(k) => {
                    return Err(k);
                }
            }
            let ghost mid2 = dst@;
            let o2 = Operator::End;
            let ghost go2 = o2;
            dst.push((o2, loc));
            proof {
                lemma_abs_push(mid2, go2, loc);
                let body = spec_emit_seq(
                    f.builder.arena@,
                    *ids,
                    local_indices@,
                    old(labels)@.push(*c),
                    *c as int,
                )->Ok_0;
                lemma_seq_assoc(base@, pre, seq![(abs_op(go1), loc)]);
                lemma_seq_assoc(base@, pre + seq![(abs_op(go1), loc)], body);
                lemma_seq_assoc(
                    base@,
                    pre + seq![(abs_op(go1), loc)] + body,
                    seq![(abs_op(go2), loc)],
                );
            }
        }
        Instr::IfElse { consequent, alternative } => {
            proof {
                assert(instr.children()[0] == *consequent);
                assert(instr.children()[1] == *alternative);
            }
            let bt = f.builder.arena[*consequent].ty;
            let o1 = Operator::If(bt);
            let ghost go1 = o1;
            dst.push((o1, loc));
            proof {
                lemma_abs_push(old(dst)@, go1, loc);
            }
            labels.push(*consequent);
            let res = emit_seq(f, ids, local_indices, labels, *consequent, dst);
            let popped = labels.pop();
            proof {
                assert(labels@ =~= old(labels)@);
            }
            match res {
                Ok(()) => {}
                Err(k) => {
                    return Err(k);
                }
            }
            if f.builder.arena[*alternative].instrs.len() > 0 {
                let ghost mid2 = dst@;
                let oe = Operator::Else;
                let ghost goe = oe;
                dst.push((oe, loc));
                proof {
                    lemma_abs_push(mid2, goe, loc);
                }
                let ghost cbody = spec_emit_seq(
                    f.builder.arena@,
                    *ids,
                    local_indices@,
                    old(labels)@.push(*consequent),
                    *consequent as int,
                )->Ok_0;
                proof {
                    lemma_seq_assoc(base@, pre, seq![(abs_op(go1), loc)]);
                    lemma_seq_assoc(base@, pre + seq![(abs_op(go1), loc)], cbody);
                    lemma_seq_assoc(
                        base@,
                        pre + seq![(abs_op(go1), loc)] + cbody,
                        seq![(abs_op(goe), loc)],
                    );
                }
                labels.push(*alternative);
                let res2 = emit_seq(f, ids, local_indices, labels, *alternative, dst);
                let popped2 = labels.pop();
                proof {
                    assert(labels@ =~= old(labels)@);
                }
                match res2 {
                    Ok(()) => {}
                    Err(k) => {
                        return Err(k);
                    }
                }
            }
            let ghost mid3 = dst@;
            let o2 = Operator::End;
            let ghost go2 = o2;
            dst.push((o2, loc));
            proof {
                lemma_abs_push(mid3, go2, loc);
                let cbody2 = spec_emit_seq(
                    f.builder.arena@,
                    *ids,
                    local_indices@,
                    old(labels)@.push(*consequent),
                    *consequent as int,
                )->Ok_0;
                if f.builder.arena@[*alternative as int].instrs@.len() > 0 {
                    let abody = spec_emit_seq(
                        f.builder.arena@,
                        *ids,
                        local_indices@,
                        old(labels)@.push(*alternative),
                        *alternative as int,
                    )->Ok_0;
                    lemma_seq_assoc(
                        base@,
                        pre + seq![(abs_op(go1), loc)] + cbody2
                            + seq![(GOp::Plain(Operator::Else), loc)],
                        abody,
                    );
                    lemma_seq_assoc(
                        base@,
                        pre + seq![(abs_op(go1), loc)] + cbody2
                            + seq![(GOp::Plain(Operator::Else), loc)] + abody,
                        seq![(abs_op(go2), loc)],
                    );
                } else {
                    lemma_seq_assoc(base@, pre, seq![(abs_op(go1), loc)]);
                    lemma_seq_assoc(base@, pre + seq![(abs_op(go1), loc)], cbody2);
                    lemma_seq_assoc(
                        base@,
                        pre + seq![(abs_op(go1), loc)] + cbody2,
                        seq![(abs_op(go2), loc)],
                    );
                }
            }
        }
        _ => {
            return emit_instr_flat(
                f,
                ids,
                local_indices,
                labels,
                s,
                instr,
                loc,
                dst,
                base,
                pos,
            );
        }
    }
    proof {
        let post = spec_emit_upto(
            f.builder.arena@,
            *ids,
            local_indices@,
            old(labels)@,
            s as int,
            pos@ + 1,
        );
        assert(abs_stream(dst@) == base@ + post->Ok_0);
    }
    Ok(())
}


/// The operators the second flat emitter handles, and those it passes
/// on.
pub open spec fn is_flat2_op(i: Instr) -> bool {
    match i {
        Instr::GlobalGet(_) | Instr::GlobalSet(_) | Instr::Load { .. } | Instr::Store { .. }
        | Instr::MemorySize(_) | Instr::MemoryGrow(_) | Instr::MemoryInit { .. }
        | Instr::DataDrop(_) | Instr::MemoryCopy { .. } | Instr::MemoryFill(_)
        | Instr::AtomicFence | Instr::AtomicRmw { .. } | Instr::Cmpxchg { .. }
        | Instr::AtomicNotify { .. } | Instr::AtomicWait { .. } => true,
        _ => is_flat3_op(i),
    }
}

/// The operators the third flat emitter handles.
pub open spec fn is_flat3_op(i: Instr) -> bool {
    match i {
        Instr::TableGet(_) | Instr::TableSet(_) | Instr::TableGrow(_) | Instr::TableSize(_)
        | Instr::TableFill(_) | Instr::RefNull(_) | Instr::RefIsNull(_) | Instr::RefFunc(_)
        | Instr::V128Bitselect | Instr::V128Swizzle | Instr::V128Shuffle { .. }
        | Instr::LoadSimd { .. } | Instr::TableCopy { .. } | Instr::TableInit { .. }
        | Instr::ElemDrop(_) => true,
        _ => false,
    }
}

/// Emits one non-structural instruction.  `pos` is the instruction's
/// position in the sequence stored at `s`; `base` is the ghost stream
/// the destination held before the sequence's emission began.
#[verifier::loop_isolation(false)]
#[verifier::rlimit(100)]
#[verifier::spinoff_prover]
fn emit_instr_flat(
    f: &LocalFunction,
    ids: &IdsToIndices,
    local_indices: &Vec<(usize, usize)>,
    labels: &Vec<usize>,
    s: usize,
    instr: &Instr,
    loc: u32,
    dst: &mut Vec<(Operator, u32)>,
    base: Ghost<Seq<(GOp, u32)>>,
    pos: Ghost<int>,
) -> (r: Result<(), ErrorKind>)
    requires
        f.wf(),
        s < f.builder.arena@.len(),
        forall|k: int| 0 <= k < instr.children().len()
            ==> (s as int) < #[trigger] instr.children()[k] < f.builder.arena@.len(),
        0 <= pos@ < f.builder.arena@[s as int].instrs@.len(),
        f.builder.arena@[s as int].instrs@[pos@] == (*instr, loc),
        instr.children().len() == 0,
        spec_emit_upto(
            f.builder.arena@,
            *ids,
            local_indices@,
            labels@,
            s as int,
            pos@,
        ) is Ok,
        abs_stream(old(dst)@) == base@ + spec_emit_upto(
            f.builder.arena@,
            *ids,
            local_indices@,
            labels@,
            s as int,
            pos@,
        )->Ok_0,
    ensures
        final(dst)@.len() >= old(dst)@.len(),
        ({
            let post = spec_emit_upto(
                f.builder.arena@,
                *ids,
                local_indices@,
                labels@,
                s as int,
                pos@ + 1,
            );
            &&& (r is Ok <==> post is Ok)
            &&& (r is Ok ==> abs_stream(final(dst)@) == base@ + post->Ok_0)
            &&& (r is Err ==> r->Err_0 == post->Err_0)
        }),
{
    let ghost pre = spec_emit_upto(
        f.builder.arena@,
        *ids,
        local_indices@,
        labels@,
        s as int,
        pos@,
    )->Ok_0;
    match instr {
        Instr::Const(v) => {
            match v {
                Value::V128(x) => {
                    let bytes = crate::ops::u128_to_v128(*x);
                    let o = Operator::V128Const(bytes);
                    let ghost go = o;
                    dst.push((o, loc));
                    proof {
                        assert(abs_op(go) == GOp::Vector(*x));
                        lemma_abs_push(old(dst)@, go, loc);
                        lemma_seq_assoc(base@, pre, seq![(abs_op(go), loc)]);
                    }
                }
                _ => {
                    let o = Operator::Const(*v);
                    let ghost go = o;
                    dst.push((o, loc));
                    proof {
                        lemma_abs_push(old(dst)@, go, loc);
                        lemma_seq_assoc(base@, pre, seq![(abs_op(go), loc)]);
                    }
                }
            }
        }
        Instr::Unop(u) => {
            let o = Operator::Unop(*u);
            let ghost go = o;
            dst.push((o, loc));
            proof {
                lemma_abs_push(old(dst)@, go, loc);
                lemma_seq_assoc(base@, pre, seq![(abs_op(go), loc)]);
            }
        }
        Instr::Binop(b) => {
            let o = Operator::Binop(*b);
            let ghost go = o;
            dst.push((o, loc));
            proof {
                lemma_abs_push(old(dst)@, go, loc);
                lemma_seq_assoc(base@, pre, seq![(abs_op(go), loc)]);
            }
        }
        Instr::Drop => {
            let o = Operator::Drop;
            let ghost go = o;
            dst.push((o, loc));
            proof {
                lemma_abs_push(old(dst)@, go, loc);
                lemma_seq_assoc(base@, pre, seq![(abs_op(go), loc)]);
            }
        }
        Instr::Select(t) => {
            match t {
                None => {
                    let o = Operator::Select;
                    let ghost go = o;
                    dst.push((o, loc));
                    proof {
                        lemma_abs_push(old(dst)@, go, loc);
                        lemma_seq_assoc(base@, pre, seq![(abs_op(go), loc)]);
                    }
                }
                Some(ty) => {
                    let o = Operator::TypedSelect(*ty);
                    let ghost go = o;
                    dst.push((o, loc));
                    proof {
                        lemma_abs_push(old(dst)@, go, loc);
                        lemma_seq_assoc(base@, pre, seq![(abs_op(go), loc)]);
                    }
                }
            }
        }
        Instr::Return => {
            let o = Operator::Return;
            let ghost go = o;
            dst.push((o, loc));
            proof {
                lemma_abs_push(old(dst)@, go, loc);
                lemma_seq_assoc(base@, pre, seq![(abs_op(go), loc)]);
            }
        }
        Instr::Unreachable => {
            let o = Operator::Unreachable;
            let ghost go = o;
            dst.push((o, loc));
            proof {
                lemma_abs_push(old(dst)@, go, loc);
                lemma_seq_assoc(base@, pre, seq![(abs_op(go), loc)]);
            }
        }
        Instr::Br(t) => {
            let d = match label_depth(labels, *t) {
                Ok(d) => d,
                Err(k) => {
                    return Err(k);
                }
            };
            let o = Operator::Br(d);
            let ghost go = o;
            dst.push((o, loc));
            proof {
                lemma_abs_push(old(dst)@, go, loc);
                lemma_seq_assoc(base@, pre, seq![(abs_op(go), loc)]);
            }
        }
        Instr::BrIf(t) => {
            let d = match label_depth(labels, *t) {
                Ok(d) => d,
                Err(k) => {
                    return Err(k);
                }
            };
            let o = Operator::BrIf(d);
            let ghost go = o;
            dst.push((o, loc));
            proof {
                lemma_abs_push(old(dst)@, go, loc);
                lemma_seq_assoc(base@, pre, seq![(abs_op(go), loc)]);
            }
        }
        Instr::BrTable { blocks, default } => {
            let mut ls: Vec<u32> = Vec::new();
            let mut i: usize = 0;
            proof {
                assert(blocks@.skip(0) =~= blocks@);
                if spec_depths(labels@, blocks@) is Ok {
                    let rest = spec_depths(labels@, blocks@)->Ok_0;
                    assert(Seq::<u32>::empty() + rest =~= rest);
                }
                assert(ls@ =~= Seq::<u32>::empty());
            }
            while i < blocks.len()
                invariant
                    i <= blocks@.len(),
                    spec_depths(labels@, blocks@) == (
                    match spec_depths(labels@, blocks@.skip(i as int)) {
                        Ok(rest) => Ok::<Seq<u32>, ErrorKind>(ls@ + rest),
                        Err(k) => Err::<Seq<u32>, ErrorKind>(k),
                    }),
                decreases blocks@.len() - i,
            {
                proof {
                    assert(blocks@.skip(i as int)[0] == blocks@[i as int]);
                    assert(blocks@.skip(i as int).drop_first() =~= blocks@.skip(i as int + 1));
                }
                let ghost lpre = ls@;
                let d = match label_depth(labels, blocks[i]) {
                    Ok(d) => d,
                    Err(k) => {
                        return Err(k);
                    }
                };
                ls.push(d);
                i += 1;
                proof {
                    if spec_depths(labels@, blocks@.skip(i as int)) is Ok {
                        let rest = spec_depths(labels@, blocks@.skip(i as int))->Ok_0;
                        assert(ls@ + rest =~= lpre + (seq![d] + rest));
                    }
                }
            }
            proof {
                assert(blocks@.skip(blocks@.len() as int) =~= Seq::<usize>::empty());
                assert(ls@ + Seq::<u32>::empty() =~= ls@);
                assert(spec_depths(labels@, blocks@) == Ok::<Seq<u32>, ErrorKind>(ls@));
            }
            let dd = match label_depth(labels, *default) {
                Ok(d) => d,
                Err(k) => {
                    return Err(k);
                }
            };
            let ghost lsv = ls@;
            let o = Operator::BrTable(BrTableData { labels: ls, default: dd });
            let ghost go = o;
            dst.push((o, loc));
            proof {
                assert(abs_op(go) == (GOp::Table { labels: lsv, default: dd }));
                lemma_abs_push(old(dst)@, go, loc);
                lemma_seq_assoc(base@, pre, seq![(abs_op(go), loc)]);
            }
        }
        Instr::Call(func) => {
            let fi = match rev_index(&ids.funcs, *func) {
                Ok(x) => x,
                Err(k) => {
                    return Err(k);
                }
            };
            let o = Operator::Call(fi);
            let ghost go = o;
            dst.push((o, loc));
            proof {
                lemma_abs_push(old(dst)@, go, loc);
                lemma_seq_assoc(base@, pre, seq![(abs_op(go), loc)]);
            }
        }
        Instr::CallIndirect { ty, table } => {
            let ti = match rev_index(&ids.types, *ty) {
                Ok(x) => x,
                Err(k) => {
                    return Err(k);
                }
            };
            let tb = match rev_index(&ids.tables, *table) {
                Ok(x) => x,
                Err(k) => {
                    return Err(k);
                }
            };
            let o = Operator::CallIndirect { type_index: ti, table_index: tb };
            let ghost go = o;
            dst.push((o, loc));
            proof {
                lemma_abs_push(old(dst)@, go, loc);
                lemma_seq_assoc(base@, pre, seq![(abs_op(go), loc)]);
            }
        }
        Instr::LocalGet(l) => {
            let idx = match local_index(local_indices, *l) {
                Ok(x) => x,
                Err(k) => {
                    return Err(k);
                }
            };
            let idx32 = #[verifier::truncate] (idx as u32);
            let o = Operator::LocalGet(idx32);
            let ghost go = o;
            dst.push((o, loc));
            proof {
                lemma_abs_push(old(dst)@, go, loc);
                lemma_seq_assoc(base@, pre, seq![(abs_op(go), loc)]);
            }
        }
        Instr::LocalSet(l) => {
            let idx = match local_index(local_indices, *l) {
                Ok(x) => x,
                Err(k) => {
                    return Err(k);
                }
            };
            let idx32 = #[verifier::truncate] (idx as u32);
            let o = Operator::LocalSet(idx32);
            let ghost go = o;
            dst.push((o, loc));
            proof {
                lemma_abs_push(old(dst)@, go, loc);
                lemma_seq_assoc(base@, pre, seq![(abs_op(go), loc)]);
            }
        }
        Instr::LocalTee(l) => {
            let idx = match local_index(local_indices, *l) {
                Ok(x) => x,
                Err(k) => {
                    return Err(k);
                }
            };
            let idx32 = #[verifier::truncate] (idx as u32);
            let o = Operator::LocalTee(idx32);
            let ghost go = o;
            dst.push((o, loc));
            proof {
                lemma_abs_push(old(dst)@, go, loc);
                lemma_seq_assoc(base@, pre, seq![(abs_op(go), loc)]);
            }
        }
        _ => {
            return emit_instr_flat2(
                f,
                ids,
                local_indices,
                labels,
                s,
                instr,
                loc,
                dst,
                base,
                pos,
            );
        }
    }
    proof {
        let post = spec_emit_upto(
            f.builder.arena@,
            *ids,
            local_indices@,
            labels@,
            s as int,
            pos@ + 1,
        );
        assert(abs_stream(dst@) == base@ + post->Ok_0);
    }
    Ok(())
}



/// Continues [`emit_instr_flat`]: the call, variable and memory
/// operators.  `pos` is the instruction's
/// position in the sequence stored at `s`; `base` is the ghost stream
/// the destination held before the sequence's emission began.
#[verifier::loop_isolation(false)]
#[verifier::rlimit(100)]
#[verifier::spinoff_prover]
fn emit_instr_flat2(
    f: &LocalFunction,
    ids: &IdsToIndices,
    local_indices: &Vec<(usize, usize)>,
    labels: &Vec<usize>,
    s: usize,
    instr: &Instr,
    loc: u32,
    dst: &mut Vec<(Operator, u32)>,
    base: Ghost<Seq<(GOp, u32)>>,
    pos: Ghost<int>,
) -> (r: Result<(), ErrorKind>)
    requires
        f.wf(),
        is_flat2_op(*instr),
        s < f.builder.arena@.len(),
        forall|k: int| 0 <= k < instr.children().len()
            ==> (s as int) < #[trigger] instr.children()[k] < f.builder.arena@.len(),
        0 <= pos@ < f.builder.arena@[s as int].instrs@.len(),
        f.builder.arena@[s as int].instrs@[pos@] == (*instr, loc),
        instr.children().len() == 0,
        spec_emit_upto(
            f.builder.arena@,
            *ids,
            local_indices@,
            labels@,
            s as int,
            pos@,
        ) is Ok,
        abs_stream(old(dst)@) == base@ + spec_emit_upto(
            f.builder.arena@,
            *ids,
            local_indices@,
            labels@,
            s as int,
            pos@,
        )->Ok_0,
    ensures
        final(dst)@.len() >= old(dst)@.len(),
        ({
            let post = spec_emit_upto(
                f.builder.arena@,
                *ids,
                local_indices@,
                labels@,
                s as int,
                pos@ + 1,
            );
            &&& (r is Ok <==> post is Ok)
            &&& (r is Ok ==> abs_stream(final(dst)@) == base@ + post->Ok_0)
            &&& (r is Err ==> r->Err_0 == post->Err_0)
        }),
{
    let ghost pre = spec_emit_upto(
        f.builder.arena@,
        *ids,
        local_indices@,
        labels@,
        s as int,
        pos@,
    )->Ok_0;
    match instr {
        Instr::GlobalGet(g) => {
            let gi = match rev_index(&ids.globals, *g) {
                Ok(x) => x,
                Err(k) => {
                    return Err(k);
                }
            };
            let o = Operator::GlobalGet(gi);
            let ghost go = o;
            dst.push((o, loc));
            proof {
                lemma_abs_push(old(dst)@, go, loc);
                lemma_seq_assoc(base@, pre, seq![(abs_op(go), loc)]);
            }
        }
        Instr::GlobalSet(g) => {
            let gi = match rev_index(&ids.globals, *g) {
                Ok(x) => x,
                Err(k) => {
                    return Err(k);
                }
            };
            let o = Operator::GlobalSet(gi);
            let ghost go = o;
            dst.push((o, loc));
            proof {
                lemma_abs_push(old(dst)@, go, loc);
                lemma_seq_assoc(base@, pre, seq![(abs_op(go), loc)]);
            }
        }
        Instr::Load { memory: _, arg, kind } => {
            let o = Operator::Load { memarg: encode_mem_arg(arg), kind: *kind };
            let ghost go = o;
            dst.push((o, loc));
            proof {
                lemma_abs_push(old(dst)@, go, loc);
                lemma_seq_assoc(base@, pre, seq![(abs_op(go), loc)]);
            }
        }
        Instr::Store { memory: _, arg, kind } => {
            let o = Operator::Store { memarg: encode_mem_arg(arg), kind: *kind };
            let ghost go = o;
            dst.push((o, loc));
            proof {
                lemma_abs_push(old(dst)@, go, loc);
                lemma_seq_assoc(base@, pre, seq![(abs_op(go), loc)]);
            }
        }
        Instr::MemorySize(_) => {
            let o = Operator::MemorySize { reserved: 0 };
            let ghost go = o;
            dst.push((o, loc));
            proof {
                lemma_abs_push(old(dst)@, go, loc);
                lemma_seq_assoc(base@, pre, seq![(abs_op(go), loc)]);
            }
        }
        Instr::MemoryGrow(_) => {
            let o = Operator::MemoryGrow { reserved: 0 };
            let ghost go = o;
            dst.push((o, loc));
            proof {
                lemma_abs_push(old(dst)@, go, loc);
                lemma_seq_assoc(base@, pre, seq![(abs_op(go), loc)]);
            }
        }
        Instr::MemoryInit { memory: _, data } => {
            let di = match rev_index(&ids.data, *data) {
                Ok(x) => x,
                Err(k) => {
                    return Err(k);
                }
            };
            let o = Operator::MemoryInit { segment: di };
            let ghost go = o;
            dst.push((o, loc));
            proof {
                lemma_abs_push(old(dst)@, go, loc);
                lemma_seq_assoc(base@, pre, seq![(abs_op(go), loc)]);
            }
        }
        Instr::DataDrop(data) => {
            let di = match rev_index(&ids.data, *data) {
                Ok(x) => x,
                Err(k) => {
                    return Err(k);
                }
            };
            let o = Operator::DataDrop { segment: di };
            let ghost go = o;
            dst.push((o, loc));
            proof {
                lemma_abs_push(old(dst)@, go, loc);
                lemma_seq_assoc(base@, pre, seq![(abs_op(go), loc)]);
            }
        }
        Instr::MemoryCopy { .. } => {
            let o = Operator::MemoryCopy;
            let ghost go = o;
            dst.push((o, loc));
            proof {
                lemma_abs_push(old(dst)@, go, loc);
                lemma_seq_assoc(base@, pre, seq![(abs_op(go), loc)]);
            }
        }
        Instr::MemoryFill(_) => {
            let o = Operator::MemoryFill;
            let ghost go = o;
            dst.push((o, loc));
            proof {
                lemma_abs_push(old(dst)@, go, loc);
                lemma_seq_assoc(base@, pre, seq![(abs_op(go), loc)]);
            }
        }
        Instr::AtomicFence => {
            let o = Operator::AtomicFence { flags: 0 };
            let ghost go = o;
            dst.push((o, loc));
            proof {
                lemma_abs_push(old(dst)@, go, loc);
                lemma_seq_assoc(base@, pre, seq![(abs_op(go), loc)]);
            }
        }
        Instr::AtomicRmw { memory: _, arg, op, width } => {
            let o = Operator::AtomicRmw {
                memarg: encode_mem_arg(arg),
                op: *op,
                width: *width,
            };
            let ghost go = o;
            dst.push((o, loc));
            proof {
                lemma_abs_push(old(dst)@, go, loc);
                lemma_seq_assoc(base@, pre, seq![(abs_op(go), loc)]);
            }
        }
        Instr::Cmpxchg { memory: _, arg, width } => {
            let o = Operator::Cmpxchg { memarg: encode_mem_arg(arg), width: *width };
            let ghost go = o;
            dst.push((o, loc));
            proof {
                lemma_abs_push(old(dst)@, go, loc);
                lemma_seq_assoc(base@, pre, seq![(abs_op(go), loc)]);
            }
        }
        Instr::AtomicNotify { memory: _, arg } => {
            let o = Operator::AtomicNotify { memarg: encode_mem_arg(arg) };
            let ghost go = o;
            dst.push((o, loc));
            proof {
                lemma_abs_push(old(dst)@, go, loc);
                lemma_seq_assoc(base@, pre, seq![(abs_op(go), loc)]);
            }
        }
        Instr::AtomicWait { memory: _, arg, sixty_four } => {
            let o = Operator::AtomicWait {
                memarg: encode_mem_arg(arg),
                sixty_four: *sixty_four,
            };
            let ghost go = o;
            dst.push((o, loc));
            proof {
                lemma_abs_push(old(dst)@, go, loc);
                lemma_seq_assoc(base@, pre, seq![(abs_op(go), loc)]);
            }
        }
        _ => {
            return emit_instr_flat3(
                f,
                ids,
                local_indices,
                labels,
                s,
                instr,
                loc,
                dst,
                base,
                pos,
            );
        }
    }
    proof {
        let post = spec_emit_upto(
            f.builder.arena@,
            *ids,
            local_indices@,
            labels@,
            s as int,
            pos@ + 1,
        );
        assert(abs_stream(dst@) == base@ + post->Ok_0);
    }
    Ok(())
}



/// Continues [`emit_instr_flat`]: the table, reference and vector
/// operators.  `pos` is the instruction's
/// position in the sequence stored at `s`; `base` is the ghost stream
/// the destination held before the sequence's emission began.
#[verifier::loop_isolation(false)]
#[verifier::rlimit(100)]
#[verifier::spinoff_prover]
fn emit_instr_flat3(
    f: &LocalFunction,
    ids: &IdsToIndices,
    local_indices: &Vec<(usize, usize)>,
    labels: &Vec<usize>,
    s: usize,
    instr: &Instr,
    loc: u32,
    dst: &mut Vec<(Operator, u32)>,
    base: Ghost<Seq<(GOp, u32)>>,
    pos: Ghost<int>,
) -> (r: Result<(), ErrorKind>)
    requires
        f.wf(),
        is_flat3_op(*instr),
        s < f.builder.arena@.len(),
        forall|k: int| 0 <= k < instr.children().len()
            ==> (s as int) < #[trigger] instr.children()[k] < f.builder.arena@.len(),
        0 <= pos@ < f.builder.arena@[s as int].instrs@.len(),
        f.builder.arena@[s as int].instrs@[pos@] == (*instr, loc),
        instr.children().len() == 0,
        spec_emit_upto(
            f.builder.arena@,
            *ids,
            local_indices@,
            labels@,
            s as int,
            pos@,
        ) is Ok,
        abs_stream(old(dst)@) == base@ + spec_emit_upto(
            f.builder.arena@,
            *ids,
            local_indices@,
            labels@,
            s as int,
            pos@,
        )->Ok_0,
    ensures
        final(dst)@.len() >= old(dst)@.len(),
        ({
            let post = spec_emit_upto(
                f.builder.arena@,
                *ids,
                local_indices@,
                labels@,
                s as int,
                pos@ + 1,
            );
            &&& (r is Ok <==> post is Ok)
            &&& (r is Ok ==> abs_stream(final(dst)@) == base@ + post->Ok_0)
            &&& (r is Err ==> r->Err_0 == post->Err_0)
        }),
{
    let ghost pre = spec_emit_upto(
        f.builder.arena@,
        *ids,
        local_indices@,
        labels@,
        s as int,
        pos@,
    )->Ok_0;
    match instr {
        Instr::TableGet(t) => {
            let ti = match rev_index(&ids.tables, *t) {
                Ok(x) => x,
                Err(k) => {
                    return Err(k);
                }
            };
            let o = Operator::TableGet(ti);
            let ghost go = o;
            dst.push((o, loc));
            proof {
                lemma_abs_push(old(dst)@, go, loc);
                lemma_seq_assoc(base@, pre, seq![(abs_op(go), loc)]);
            }
        }
        Instr::TableSet(t) => {
            let ti = match rev_index(&ids.tables, *t) {
                Ok(x) => x,
                Err(k) => {
                    return Err(k);
                }
            };
            let o = Operator::TableSet(ti);
            let ghost go = o;
            dst.push((o, loc));
            proof {
                lemma_abs_push(old(dst)@, go, loc);
                lemma_seq_assoc(base@, pre, seq![(abs_op(go), loc)]);
            }
        }
        Instr::TableGrow(t) => {
            let ti = match rev_index(&ids.tables, *t) {
                Ok(x) => x,
                Err(k) => {
                    return Err(k);
                }
            };
            let o = Operator::TableGrow(ti);
            let ghost go = o;
            dst.push((o, loc));
            proof {
                lemma_abs_push(old(dst)@, go, loc);
                lemma_seq_assoc(base@, pre, seq![(abs_op(go), loc)]);
            }
        }
        Instr::TableSize(t) => {
            let ti = match rev_index(&ids.tables, *t) {
                Ok(x) => x,
                Err(k) => {
                    return Err(k);
                }
            };
            let o = Operator::TableSize(ti);
            let ghost go = o;
            dst.push((o, loc));
            proof {
                lemma_abs_push(old(dst)@, go, loc);
                lemma_seq_assoc(base@, pre, seq![(abs_op(go), loc)]);
            }
        }
        Instr::TableFill(t) => {
            let ti = match rev_index(&ids.tables, *t) {
                Ok(x) => x,
                Err(k) => {
                    return Err(k);
                }
            };
            let o = Operator::TableFill(ti);
            let ghost go = o;
            dst.push((o, loc));
            proof {
                lemma_abs_push(old(dst)@, go, loc);
                lemma_seq_assoc(base@, pre, seq![(abs_op(go), loc)]);
            }
        }
        Instr::RefNull(t) => {
            let o = Operator::RefNull(*t);
            let ghost go = o;
            dst.push((o, loc));
            proof {
                lemma_abs_push(old(dst)@, go, loc);
                lemma_seq_assoc(base@, pre, seq![(abs_op(go), loc)]);
            }
        }
        Instr::RefIsNull(t) => {
            let o = Operator::RefIsNull(*t);
            let ghost go = o;
            dst.push((o, loc));
            proof {
                lemma_abs_push(old(dst)@, go, loc);
                lemma_seq_assoc(base@, pre, seq![(abs_op(go), loc)]);
            }
        }
        Instr::RefFunc(func) => {
            let fi = match rev_index(&ids.funcs, *func) {
                Ok(x) => x,
                Err(k) => {
                    return Err(k);
                }
            };
            let o = Operator::RefFunc(fi);
            let ghost go = o;
            dst.push((o, loc));
            proof {
                lemma_abs_push(old(dst)@, go, loc);
                lemma_seq_assoc(base@, pre, seq![(abs_op(go), loc)]);
            }
        }
        Instr::V128Bitselect => {
            let o = Operator::V128Bitselect;
            let ghost go = o;
            dst.push((o, loc));
            proof {
                lemma_abs_push(old(dst)@, go, loc);
                lemma_seq_assoc(base@, pre, seq![(abs_op(go), loc)]);
            }
        }
        Instr::V128Swizzle => {
            let o = Operator::V128Swizzle;
            let ghost go = o;
            dst.push((o, loc));
            proof {
                lemma_abs_push(old(dst)@, go, loc);
                lemma_seq_assoc(base@, pre, seq![(abs_op(go), loc)]);
            }
        }
        Instr::V128Shuffle { lanes } => {
            let o = Operator::V128Shuffle { lanes: *lanes };
            let ghost go = o;
            dst.push((o, loc));
            proof {
                lemma_abs_push(old(dst)@, go, loc);
                lemma_seq_assoc(base@, pre, seq![(abs_op(go), loc)]);
            }
        }
        Instr::LoadSimd { memory: _, arg, kind } => {
            let o = Operator::LoadSimd { memarg: encode_mem_arg(arg), kind: *kind };
            let ghost go = o;
            dst.push((o, loc));
            proof {
                lemma_abs_push(old(dst)@, go, loc);
                lemma_seq_assoc(base@, pre, seq![(abs_op(go), loc)]);
            }
        }
        Instr::TableCopy { src, dst: dst_table } => {
            let si = match rev_index(&ids.tables, *src) {
                Ok(x) => x,
                Err(k) => {
                    return Err(k);
                }
            };
            let di = match rev_index(&ids.tables, *dst_table) {
                Ok(x) => x,
                Err(k) => {
                    return Err(k);
                }
            };
            let o = Operator::TableCopy { src_table: si, dst_table: di };
            let ghost go = o;
            dst.push((o, loc));
            proof {
                lemma_abs_push(old(dst)@, go, loc);
                lemma_seq_assoc(base@, pre, seq![(abs_op(go), loc)]);
            }
        }
        Instr::TableInit { elem, table } => {
            let ei = match rev_index(&ids.elements, *elem) {
                Ok(x) => x,
                Err(k) => {
                    return Err(k);
                }
            };
            let ti = match rev_index(&ids.tables, *table) {
                Ok(x) => x,
                Err(k) => {
                    return Err(k);
                }
            };
            let o = Operator::TableInit { segment: ei, table: ti };
            let ghost go = o;
            dst.push((o, loc));
            proof {
                lemma_abs_push(old(dst)@, go, loc);
                lemma_seq_assoc(base@, pre, seq![(abs_op(go), loc)]);
            }
        }
        Instr::ElemDrop(elem) => {
            let ei = match rev_index(&ids.elements, *elem) {
                Ok(x) => x,
                Err(k) => {
                    return Err(k);
                }
            };
            let o = Operator::ElemDrop { segment: ei };
            let ghost go = o;
            dst.push((o, loc));
            proof {
                lemma_abs_push(old(dst)@, go, loc);
                lemma_seq_assoc(base@, pre, seq![(abs_op(go), loc)]);
            }
        }
        _ => {
            proof {
                assert(false);
            }
            return Err(ErrorKind::UnknownIndex);
        }
    }
    proof {
        let post = spec_emit_upto(
            f.builder.arena@,
            *ids,
            local_indices@,
            labels@,
            s as int,
            pos@ + 1,
        );
        assert(abs_stream(dst@) == base@ + post->Ok_0);
    }
    Ok(())
}



impl LocalFunction {
    /// Emit this function's instruction sequence as a decoded operator
    /// stream, ending with the function's terminating `end`: the input
    /// the byte emitter collaborator encodes, and what a fresh parse of
    /// the function consumes.
    pub fn emit_instructions(
        &self,
        ids: &IdsToIndices,
        local_indices: &Vec<(usize, usize)>,
        dst: &mut Vec<(Operator, u32)>,
    ) -> (r: Result<(), ErrorKind>)
        requires
            self.wf(),
        ensures
            r is Ok ==> final(dst)@.len() >= old(dst)@.len() + 1
                && final(dst)@.last().0 is End,
            ({
                let e0 = self.builder.entry->Some_0;
                let se = spec_emit_seq(
                    self.builder.arena@,
                    *ids,
                    local_indices@,
                    seq![e0],
                    e0 as int,
                );
                &&& (r is Ok <==> se is Ok)
                &&& (r is Ok ==> abs_stream(final(dst)@) == abs_stream(old(dst)@) + se->Ok_0
                        + seq![(GOp::Plain(Operator::End), 0u32)])
                &&& (r is Err ==> r->Err_0 == se->Err_0)
            }),
    {
        let entry = self.entry_block();
        let mut labels: Vec<usize> = Vec::new();
        labels.push(entry);
        proof {
            assert(labels@ =~= seq![entry]);
        }
        match emit_seq(self, ids, local_indices, &mut labels, entry, dst) {
            Ok(()) => {}
            Err(k) => {
                return Err(k);
            }
        }
        let ghost mid = dst@;
        dst.push((Operator::End, 0));
        proof {
            lemma_abs_push(mid, Operator::End, 0);
            let se = spec_emit_seq(
                self.builder.arena@,
                *ids,
                local_indices@,
                seq![self.builder.entry->Some_0],
                self.builder.entry->Some_0 as int,
            );
            assert(abs_stream(dst@) =~= abs_stream(old(dst)@) + se->Ok_0
                + seq![(GOp::Plain(Operator::End), 0u32)]);
        }
        Ok(())
    }
}


/// Two strictly sorted id vectors with the same membership are
/// identical: the sorted form is canonical.
pub proof fn lemma_strictly_sorted_canonical(a: Seq<usize>, b: Seq<usize>)
    requires
        strictly_sorted(a),
        strictly_sorted(b),
        forall|l: usize| a.contains(l) <==> b.contains(l),
    ensures
        a == b,
    decreases a.len(),
{
    if a.len() == 0 {
        if b.len() > 0 {
            assert(b.contains(b.last())) by {
                assert(b[b.len() - 1] == b.last());
            }
            assert(a.contains(b.last()));
        }
        assert(a =~= b);
    } else {
        assert(a.contains(a.last())) by {
            assert(a[a.len() - 1] == a.last());
        }
        if b.len() == 0 {
            assert(b.contains(a.last()));
        }
        assert(b.contains(b.last())) by {
            assert(b[b.len() - 1] == b.last());
        }
        let wa = choose|w: int| 0 <= w < b.len() && b[w] == a.last();
        let wb = choose|w: int| 0 <= w < a.len() && a[w] == b.last();
        assert(b[wa] <= b.last());
        assert(a[wb] <= a.last());
        assert(a.last() == b.last());
        assert forall|l: usize| a.drop_last().contains(l) <==> b.drop_last().contains(l) by {
            assert forall|l: usize| a.drop_last().contains(l) implies b.drop_last().contains(
                l,
            ) by {
                let w = choose|w: int| 0 <= w < a.drop_last().len() && a.drop_last()[w] == l;
                assert(a[w] == l && w < a.len() - 1);
                assert(l < a.last());
                assert(a.contains(l)) by {
                    assert(a[w] == l);
                }
                let w2 = choose|w2: int| 0 <= w2 < b.len() && b[w2] == l;
                assert(w2 < b.len() - 1);
                assert(b.drop_last()[w2] == l);
            }
            assert forall|l: usize| b.drop_last().contains(l) implies a.drop_last().contains(
                l,
            ) by {
                let w = choose|w: int| 0 <= w < b.drop_last().len() && b.drop_last()[w] == l;
                assert(b[w] == l && w < b.len() - 1);
                assert(l < b.last());
                assert(b.contains(l)) by {
                    assert(b[w] == l);
                }
                let w2 = choose|w2: int| 0 <= w2 < a.len() && a[w2] == l;
                assert(w2 < a.len() - 1);
                assert(a.drop_last()[w2] == l);
            }
        }
        lemma_strictly_sorted_canonical(a.drop_last(), b.drop_last());
        assert forall|i: int| 0 <= i < a.len() implies a[i] == b[i] by {
            if i < a.len() - 1 {
                assert(a.drop_last()[i] == a[i]);
                assert(b.drop_last()[i] == b[i]);
            }
        }
        assert(a =~= b);
    }
}

/// Determinism of the locals layout: two runs of the locals emitter on
/// the same function and module — two results each satisfying the
/// emitter's contract — report the same used set, the same index map,
/// and byte-identical declarations.
pub proof fn lemma_emit_locals_deterministic(
    f: LocalFunction,
    m: ModuleInfo,
    used1: Seq<usize>,
    map1: Seq<(usize, usize)>,
    decl1: Seq<u8>,
    used2: Seq<usize>,
    map2: Seq<(usize, usize)>,
    decl2: Seq<u8>,
)
    requires
        strictly_sorted(used1),
        forall|l: usize| used1.contains(l) <==> seq_reaches_key(
            f.builder.arena@,
            f.builder.entry->Some_0 as int,
            RefKind::Locals,
            l,
        ),
        map1 == spec_local_map(used1, f.args@, m.locals@),
        decl1 == spec_locals_decl(used1, f.args@, m.locals@),
        strictly_sorted(used2),
        forall|l: usize| used2.contains(l) <==> seq_reaches_key(
            f.builder.arena@,
            f.builder.entry->Some_0 as int,
            RefKind::Locals,
            l,
        ),
        map2 == spec_local_map(used2, f.args@, m.locals@),
        decl2 == spec_locals_decl(used2, f.args@, m.locals@),
    ensures
        used1 == used2,
        map1 == map2,
        decl1 == decl2,
{
    lemma_strictly_sorted_canonical(used1, used2);
}

/// Determinism of emission: whatever destination vectors two runs of
/// the instruction emitter start from, on the same function and maps
/// they append the same operator stream — the linearisation is a
/// function of the tree and the maps alone.
pub proof fn lemma_emit_instructions_deterministic(
    f: LocalFunction,
    ids: IdsToIndices,
    lmap: Seq<(usize, usize)>,
    pre1: Seq<(Operator, u32)>,
    post1: Seq<(Operator, u32)>,
    pre2: Seq<(Operator, u32)>,
    post2: Seq<(Operator, u32)>,
)
    requires
        f.builder.entry is Some,
        ({
            let e0 = f.builder.entry->Some_0;
            let se = spec_emit_seq(f.builder.arena@, ids, lmap, seq![e0], e0 as int);
            &&& se is Ok
            &&& abs_stream(post1) == abs_stream(pre1) + se->Ok_0
                + seq![(GOp::Plain(Operator::End), 0u32)]
            &&& abs_stream(post2) == abs_stream(pre2) + se->Ok_0
                + seq![(GOp::Plain(Operator::End), 0u32)]
        }),
    ensures
        abs_stream(post1).skip(pre1.len() as int) == abs_stream(post2).skip(pre2.len() as int),
{
    let e0 = f.builder.entry->Some_0;
    let se = spec_emit_seq(f.builder.arena@, ids, lmap, seq![e0], e0 as int);
    let tail = se->Ok_0 + seq![(GOp::Plain(Operator::End), 0u32)];
    assert(abs_stream(pre1).len() == pre1.len());
    assert(abs_stream(pre2).len() == pre2.len());
    assert((abs_stream(pre1) + tail).skip(pre1.len() as int) =~= tail);
    assert((abs_stream(pre2) + tail).skip(pre2.len() as int) =~= tail);
    assert(abs_stream(post1) == abs_stream(pre1) + tail);
    assert(abs_stream(post2) == abs_stream(pre2) + tail);
}

/// The label types of a frame, as every branch check uses them: the
/// parameters for a `loop` target, the results for every other kind.
pub proof fn lemma_branch_label_types(fr: crate::validate::Frame)
    ensures
        fr.kind == crate::validate::BlockKind::Loop ==> fr.spec_label_types()
            == fr.start_types@,
        fr.kind != crate::validate::BlockKind::Loop ==> fr.spec_label_types()
            == fr.end_types@,
{
}

} // verus!
