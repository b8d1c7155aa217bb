//! The validator's transition relation, stated once at the
//! mathematical level: a ghost mirror of the whole validation state and
//! one step function per operator.  The public contracts of the driver
//! and of `parse` say that the executable code computes exactly this
//! function; acceptance, rejection, the error kind and the constructed
//! instruction tree are all pinned down by it.

use vstd::prelude::*;
use crate::types::{Indices, ModuleInfo, ValType};
use crate::err::{ErrorKind, ValError};
use crate::ir::{Instr, InstrSeq, MemArg};
use crate::ops::{BlockType, Operator, Value};
use crate::ops::{
    spec_atomic_ty, spec_binop_sig, spec_load_ty, spec_store_ty, spec_unop_sig, spec_v128_val,
    spec_value_ty,
};
use crate::validate::{
    push_tys, spec_pop, spec_pop_many, BlockKind, Frame, IfElseState, Validator,
};

verus! {

/// One control frame, at the ghost level.
#[verifier::ext_equal]
pub ghost struct GFrame {
    pub kind: BlockKind,
    pub start_types: Seq<ValType>,
    pub end_types: Seq<ValType>,
    pub height: int,
    pub unreachable: bool,
    pub block: int,
}

impl GFrame {
    /// The types a branch to this frame expects: the parameters for a
    /// `loop`, the results for every other kind.
    pub open spec fn label_types(self) -> Seq<ValType> {
        if self.kind == BlockKind::Loop {
            self.start_types
        } else {
            self.end_types
        }
    }
}

/// One instruction, at the ghost level: as the executable instruction,
/// except that a `br_table`'s target list is a sequence.
#[verifier::ext_equal]
pub ghost enum GInstr {
    Plain(Instr),
    Table { blocks: Seq<usize>, default: usize },
}

/// One instruction sequence, at the ghost level.
#[verifier::ext_equal]
pub ghost struct GSeq {
    pub ty: BlockType,
    pub instrs: Seq<(GInstr, u32)>,
}

/// The whole validation state, at the ghost level.
#[verifier::ext_equal]
pub ghost struct GState {
    pub operands: Seq<Option<ValType>>,
    pub controls: Seq<GFrame>,
    pub if_else: Seq<IfElseState>,
    pub arena: Seq<GSeq>,
}

/// The ghost form of a control frame.
pub open spec fn abs_frame(f: Frame) -> GFrame {
    GFrame {
        kind: f.kind,
        start_types: f.start_types@,
        end_types: f.end_types@,
        height: f.height as int,
        unreachable: f.unreachable,
        block: f.block as int,
    }
}

/// The ghost form of an instruction.
pub open spec fn abs_instr(i: Instr) -> GInstr {
    match i {
        Instr::BrTable { blocks, default } => GInstr::Table { blocks: blocks@, default },
        _ => GInstr::Plain(i),
    }
}

/// The ghost form of an instruction sequence.
pub open spec fn abs_seq(q: InstrSeq) -> GSeq {
    GSeq {
        ty: q.ty,
        instrs: Seq::new(q.instrs@.len(), |j: int| (abs_instr(q.instrs@[j].0), q.instrs@[j].1)),
    }
}

/// The ghost form of an arena.
pub open spec fn abs_arena(a: Seq<InstrSeq>) -> Seq<GSeq> {
    Seq::new(a.len(), |s: int| abs_seq(a[s]))
}

/// The ghost form of the whole validation state.
pub open spec fn abs(v: Validator) -> GState {
    GState {
        operands: v.operands@,
        controls: Seq::new(v.controls@.len(), |i: int| abs_frame(v.controls@[i])),
        if_else: v.if_else@,
        arena: abs_arena(v.arena@),
    }
}

/// The top control frame.
pub open spec fn g_top(s: GState) -> GFrame {
    s.controls.last()
}

/// The state with its operand stack replaced.
pub open spec fn g_with_operands(s: GState, ops: Seq<Option<ValType>>) -> GState {
    GState { operands: ops, controls: s.controls, if_else: s.if_else, arena: s.arena }
}

/// The state with one instruction appended to the sequence stored at
/// `b`.
pub open spec fn g_append(s: GState, b: int, i: GInstr, loc: u32) -> GState {
    GState {
        operands: s.operands,
        controls: s.controls,
        if_else: s.if_else,
        arena: s.arena.update(
            b,
            GSeq { ty: s.arena[b].ty, instrs: s.arena[b].instrs.push((i, loc)) },
        ),
    }
}

/// The state after the top frame is marked dead: the operand stack is
/// truncated to the frame's height and its flag is set.
pub open spec fn g_unreachable(s: GState) -> GState {
    let f = g_top(s);
    GState {
        operands: s.operands.subrange(0, f.height),
        controls: s.controls.update(
            s.controls.len() - 1,
            GFrame {
                kind: f.kind,
                start_types: f.start_types,
                end_types: f.end_types,
                height: f.height,
                unreachable: true,
                block: f.block,
            },
        ),
        if_else: s.if_else,
        arena: s.arena,
    }
}

/// The state after a new frame is opened over the stack `stack`: a
/// fresh, empty sequence at the end of the arena, the frame above the
/// remaining operands, and the frame's parameters pushed back for its
/// body.
pub open spec fn g_open(
    s: GState,
    kind: BlockKind,
    bt: BlockType,
    start: Seq<ValType>,
    end: Seq<ValType>,
    stack: Seq<Option<ValType>>,
) -> GState {
    GState {
        operands: push_tys(stack, start),
        controls: s.controls.push(
            GFrame {
                kind,
                start_types: start,
                end_types: end,
                height: stack.len() as int,
                unreachable: false,
                block: s.arena.len() as int,
            },
        ),
        if_else: s.if_else,
        arena: s.arena.push(GSeq { ty: bt, instrs: Seq::empty() }),
    }
}

/// Checked end-of-frame, as `pop_control` performs it: the operand
/// stack must hold exactly the frame's result types above its height;
/// the closed frame and the state with the stack truncated and the
/// frame removed are returned.
pub open spec fn g_pop_control(s: GState) -> Result<(GFrame, GState), ErrorKind> {
    let f = g_top(s);
    match spec_pop_many(s.operands, f.height, f.unreachable, f.end_types) {
        Err(k) => Err(k),
        Ok(rest) => if rest.len() != f.height {
            Err(ErrorKind::TypeMismatch)
        } else {
            Ok(
                (
                    f,
                    GState {
                        operands: s.operands.subrange(0, f.height),
                        controls: s.controls.drop_last(),
                        if_else: s.if_else,
                        arena: s.arena,
                    },
                ),
            )
        },
    }
}

/// The common step shape: pop the expected types (last popped first),
/// push the produced types, and append the instruction to the top
/// frame's sequence.
pub open spec fn g_simple_step(
    s: GState,
    pops: Seq<ValType>,
    pushes: Seq<ValType>,
    i: GInstr,
    loc: u32,
) -> Result<GState, ErrorKind> {
    let f = g_top(s);
    match spec_pop_many(s.operands, f.height, f.unreachable, pops) {
        Err(k) => Err(k),
        Ok(st2) => Ok(
            g_append(g_with_operands(s, push_tys(st2, pushes)), f.block, i, loc),
        ),
    }
}

/// The step shape of the memory-access operators: pop, then require
/// memory 0 and a decodable alignment, then append and push.
pub open spec fn g_mem_step(
    ix: Indices,
    s: GState,
    pops: Seq<ValType>,
    pushes: Seq<ValType>,
    flags: u32,
    i: GInstr,
    loc: u32,
) -> Result<GState, ErrorKind> {
    let f = g_top(s);
    match spec_pop_many(s.operands, f.height, f.unreachable, pops) {
        Err(k) => Err(k),
        Ok(st2) => if ix.memories@.len() == 0 {
            Err(ErrorKind::UnknownIndex)
        } else if flags >= 32 {
            Err(ErrorKind::InvalidAlignment)
        } else {
            Ok(g_append(g_with_operands(s, push_tys(st2, pushes)), f.block, i, loc))
        },
    }
}

/// The memory immediate an access stores at IR level.
pub open spec fn g_mem_arg(m: crate::ops::MemImm) -> MemArg {
    MemArg { align: 1u32 << m.flags, offset: m.offset }
}

/// Whether a block type's reference into the type table resolves.
pub open spec fn g_block_ty_ok(ix: Indices, bt: BlockType) -> bool {
    crate::driver::block_ty_ok(ix, bt)
}

/// Step of `unreachable`.
pub open spec fn g_unreachable_step(s: GState, loc: u32) -> Result<GState, ErrorKind> {
    Ok(g_unreachable(g_append(s, g_top(s).block, GInstr::Plain(Instr::Unreachable), loc)))
}

/// Step of `return`.
pub open spec fn g_return_step(m: ModuleInfo, fid: int, s: GState, loc: u32) -> Result<
    GState,
    ErrorKind,
> {
    let f = g_top(s);
    let results = m.types@[m.funcs@[fid] as int].results@;
    match spec_pop_many(s.operands, f.height, f.unreachable, results) {
        Err(k) => Err(k),
        Ok(st2) => Ok(
            g_unreachable(
                g_append(g_with_operands(s, st2), f.block, GInstr::Plain(Instr::Return), loc),
            ),
        ),
    }
}

/// Step of `block`.
pub open spec fn g_block_step(
    m: ModuleInfo,
    ix: Indices,
    s: GState,
    bt: BlockType,
    loc: u32,
) -> Result<GState, ErrorKind> {
    if !g_block_ty_ok(ix, bt) {
        Err(ErrorKind::UnknownIndex)
    } else {
        let f = g_top(s);
        let params = crate::driver::spec_block_params(m, ix, bt);
        let results = crate::driver::spec_block_results(m, ix, bt);
        match spec_pop_many(s.operands, f.height, f.unreachable, params) {
            Err(k) => Err(k),
            Ok(st2) => Ok(
                g_append(
                    g_open(s, BlockKind::Block, bt, params, results, st2),
                    f.block,
                    GInstr::Plain(Instr::Block(s.arena.len() as usize)),
                    loc,
                ),
            ),
        }
    }
}

/// Step of `loop`.
pub open spec fn g_loop_step(
    m: ModuleInfo,
    ix: Indices,
    s: GState,
    bt: BlockType,
    loc: u32,
) -> Result<GState, ErrorKind> {
    if !g_block_ty_ok(ix, bt) {
        Err(ErrorKind::UnknownIndex)
    } else {
        let f = g_top(s);
        let params = crate::driver::spec_block_params(m, ix, bt);
        let results = crate::driver::spec_block_results(m, ix, bt);
        match spec_pop_many(s.operands, f.height, f.unreachable, params) {
            Err(k) => Err(k),
            Ok(st2) => Ok(
                g_append(
                    g_open(s, BlockKind::Loop, bt, params, results, st2),
                    f.block,
                    GInstr::Plain(Instr::Loop(s.arena.len() as usize)),
                    loc,
                ),
            ),
        }
    }
}

/// Step of `if`: the condition is popped before the parameters, and the
/// consequent is staged on the if/else stack.
pub open spec fn g_if_step(
    m: ModuleInfo,
    ix: Indices,
    s: GState,
    bt: BlockType,
    loc: u32,
) -> Result<GState, ErrorKind> {
    if !g_block_ty_ok(ix, bt) {
        Err(ErrorKind::UnknownIndex)
    } else {
        let f = g_top(s);
        let params = crate::driver::spec_block_params(m, ix, bt);
        let results = crate::driver::spec_block_results(m, ix, bt);
        match spec_pop(s.operands, f.height, f.unreachable, Some(ValType::I32)) {
            Err(k) => Err(k),
            Ok(p1) => match spec_pop_many(p1.0, f.height, f.unreachable, params) {
                Err(k) => Err(k),
                Ok(st2) => {
                    let s2 = g_open(s, BlockKind::If, bt, params, results, st2);
                    Ok(
                        GState {
                            operands: s2.operands,
                            controls: s2.controls,
                            if_else: s2.if_else.push(
                                IfElseState {
                                    consequent: s.arena.len() as usize,
                                    alternative: None,
                                },
                            ),
                            arena: s2.arena,
                        },
                    )
                },
            },
        }
    }
}

/// Step of `else`: the consequent's frame is closed and must belong to
/// an `if`; the alternative opens with the same signature and is
/// recorded on the staged entry.
pub open spec fn g_else_step(s: GState, loc: u32) -> Result<GState, ErrorKind> {
    match g_pop_control(s) {
        Err(k) => Err(k),
        Ok((fr, s1)) => if fr.kind != BlockKind::If {
            Err(ErrorKind::StrayElse)
        } else {
            let bt = s.arena[fr.block].ty;
            let s2 = g_open(s1, BlockKind::Else, bt, fr.start_types, fr.end_types, s1.operands);
            Ok(
                GState {
                    operands: s2.operands,
                    controls: s2.controls,
                    if_else: s2.if_else.update(
                        s2.if_else.len() - 1,
                        IfElseState {
                            consequent: s.if_else.last().consequent,
                            alternative: Some(s.arena.len() as usize),
                        },
                    ),
                    arena: s2.arena,
                },
            )
        },
    }
}

/// Step of `end`: the top frame is closed; an `if` or `else` frame
/// synthesises its `IfElse` node into the enclosing sequence (with an
/// empty alternative allocated when no `else` was seen), and the
/// frame's results are pushed back.
pub open spec fn g_end_step(s: GState, loc: u32) -> Result<GState, ErrorKind> {
    match g_pop_control(s) {
        Err(k) => Err(k),
        Ok((fr, s1)) => if fr.kind == BlockKind::If || fr.kind == BlockKind::Else {
            let entry = s.if_else.last();
            let s2 = GState {
                operands: s1.operands,
                controls: s1.controls,
                if_else: s1.if_else.drop_last(),
                arena: s1.arena,
            };
            let s3 = if entry.alternative is Some {
                s2
            } else {
                GState {
                    operands: s2.operands,
                    controls: s2.controls,
                    if_else: s2.if_else,
                    arena: s2.arena.push(
                        GSeq { ty: s.arena[fr.block].ty, instrs: Seq::empty() },
                    ),
                }
            };
            let alt: usize = if entry.alternative is Some {
                entry.alternative->0
            } else {
                s.arena.len() as usize
            };
            let s4 = g_append(
                s3,
                g_top(s3).block,
                GInstr::Plain(Instr::IfElse { consequent: entry.consequent, alternative: alt }),
                loc,
            );
            Ok(g_with_operands(s4, push_tys(s4.operands, fr.end_types)))
        } else {
            Ok(g_with_operands(s1, push_tys(s1.operands, fr.end_types)))
        },
    }
}

/// Step of `br`.
pub open spec fn g_br_step(s: GState, depth: u32, loc: u32) -> Result<GState, ErrorKind> {
    if depth as int >= s.controls.len() {
        Err(ErrorKind::UnknownLabel)
    } else {
        let f = g_top(s);
        let target = s.controls[s.controls.len() - 1 - depth as int];
        match spec_pop_many(s.operands, f.height, f.unreachable, target.label_types()) {
            Err(k) => Err(k),
            Ok(st2) => Ok(
                g_unreachable(
                    g_append(
                        g_with_operands(s, st2),
                        f.block,
                        GInstr::Plain(Instr::Br(target.block as usize)),
                        loc,
                    ),
                ),
            ),
        }
    }
}

/// Step of `br_if`: the label types are popped and pushed back for the
/// fall-through.
pub open spec fn g_br_if_step(s: GState, depth: u32, loc: u32) -> Result<GState, ErrorKind> {
    let f = g_top(s);
    match spec_pop(s.operands, f.height, f.unreachable, Some(ValType::I32)) {
        Err(k) => Err(k),
        Ok(p1) => if depth as int >= s.controls.len() {
            Err(ErrorKind::UnknownLabel)
        } else {
            let target = s.controls[s.controls.len() - 1 - depth as int];
            let lts = target.label_types();
            match spec_pop_many(p1.0, f.height, f.unreachable, lts) {
                Err(k) => Err(k),
                Ok(st2) => Ok(
                    g_append(
                        g_with_operands(s, push_tys(st2, lts)),
                        f.block,
                        GInstr::Plain(Instr::BrIf(target.block as usize)),
                        loc,
                    ),
                ),
            }
        },
    }
}

/// The per-label check of `br_table`, front to back: every label must
/// resolve, share the default's label arity, and — when its frame is
/// reachable — carry exactly the default's label types.  On success the
/// targets' sequence ids are collected.
pub open spec fn g_br_table_labels(
    s: GState,
    labels: Seq<u32>,
    types: Seq<ValType>,
) -> Result<Seq<usize>, ErrorKind>
    decreases labels.len(),
{
    if labels.len() == 0 {
        Ok(Seq::empty())
    } else {
        let l = labels[0] as int;
        if l >= s.controls.len() {
            Err(ErrorKind::UnknownLabel)
        } else {
            let fr = s.controls[s.controls.len() - 1 - l];
            if fr.label_types().len() != types.len() {
                Err(ErrorKind::TypeMismatch)
            } else if !fr.unreachable && fr.label_types() != types {
                Err(ErrorKind::TypeMismatch)
            } else {
                match g_br_table_labels(s, labels.drop_first(), types) {
                    Err(k) => Err(k),
                    Ok(rest) => Ok(seq![fr.block as usize] + rest),
                }
            }
        }
    }
}

/// Step of `br_table`.
pub open spec fn g_br_table_step(
    s: GState,
    labels: Seq<u32>,
    default: u32,
    loc: u32,
) -> Result<GState, ErrorKind> {
    if default as int >= s.controls.len() {
        Err(ErrorKind::UnknownLabel)
    } else {
        let f = g_top(s);
        let dfr = s.controls[s.controls.len() - 1 - default as int];
        let types = dfr.label_types();
        match g_br_table_labels(s, labels, types) {
            Err(k) => Err(k),
            Ok(blocks) => match spec_pop(s.operands, f.height, f.unreachable, Some(ValType::I32)) {
                Err(k) => Err(k),
                Ok(p1) => match spec_pop_many(p1.0, f.height, f.unreachable, types) {
                    Err(k) => Err(k),
                    Ok(st2) => Ok(
                        g_unreachable(
                            g_append(
                                g_with_operands(s, st2),
                                f.block,
                                GInstr::Table { blocks, default: dfr.block as usize },
                                loc,
                            ),
                        ),
                    ),
                },
            },
        }
    }
}

/// Whether untyped `select` accepts the type.
pub open spec fn g_select_num(t: ValType) -> bool {
    t == ValType::I32 || t == ValType::I64 || t == ValType::F32 || t == ValType::F64
}

/// Step of the parametric value operators: `drop`, `select`, typed
/// `select`, and the scalar constants.
pub open spec fn g_parametric_step(s: GState, op: Operator, loc: u32) -> Result<
    GState,
    ErrorKind,
> {
    let f = g_top(s);
    match op {
        Operator::Drop => match spec_pop(s.operands, f.height, f.unreachable, None) {
            Err(k) => Err(k),
            Ok(p1) => Ok(
                g_append(g_with_operands(s, p1.0), f.block, GInstr::Plain(Instr::Drop), loc),
            ),
        },
        Operator::Select => match spec_pop(
            s.operands,
            f.height,
            f.unreachable,
            Some(ValType::I32),
        ) {
            Err(k) => Err(k),
            Ok(p1) => match spec_pop(p1.0, f.height, f.unreachable, None) {
                Err(k) => Err(k),
                Ok(p2) => if p2.1 is Some && !g_select_num(p2.1->0) {
                    Err(ErrorKind::TypeMismatch)
                } else {
                    match spec_pop(p2.0, f.height, f.unreachable, p2.1) {
                        Err(k) => Err(k),
                        Ok(p3) => Ok(
                            g_append(
                                g_with_operands(s, p3.0.push(p3.1)),
                                f.block,
                                GInstr::Plain(Instr::Select(None)),
                                loc,
                            ),
                        ),
                    }
                },
            },
        },
        Operator::TypedSelect(ty) => g_simple_step(
            s,
            seq![ty, ty, ValType::I32],
            seq![ty],
            GInstr::Plain(Instr::Select(Some(ty))),
            loc,
        ),
        Operator::Const(v) => g_simple_step(
            s,
            Seq::empty(),
            seq![spec_value_ty(v)],
            GInstr::Plain(Instr::Const(v)),
            loc,
        ),
        _ => Err(ErrorKind::MalformedOperator),
    }
}

/// Step of the 128-bit vector value operators.
pub open spec fn g_vector_step(s: GState, op: Operator, loc: u32) -> Result<GState, ErrorKind> {
    match op {
        Operator::V128Const(bytes) => g_simple_step(
            s,
            Seq::empty(),
            seq![ValType::V128],
            GInstr::Plain(Instr::Const(Value::V128(spec_v128_val(bytes@) as u128))),
            loc,
        ),
        Operator::V128Bitselect => g_simple_step(
            s,
            seq![ValType::V128, ValType::V128, ValType::V128],
            seq![ValType::V128],
            GInstr::Plain(Instr::V128Bitselect),
            loc,
        ),
        Operator::V128Swizzle => g_simple_step(
            s,
            seq![ValType::V128, ValType::V128],
            seq![ValType::V128],
            GInstr::Plain(Instr::V128Swizzle),
            loc,
        ),
        Operator::V128Shuffle { lanes } => g_simple_step(
            s,
            seq![ValType::V128, ValType::V128],
            seq![ValType::V128],
            GInstr::Plain(Instr::V128Shuffle { lanes }),
            loc,
        ),
        _ => Err(ErrorKind::MalformedOperator),
    }
}

/// Step of calls and of local and global variable access.
pub open spec fn g_call_var_step(
    m: ModuleInfo,
    ix: Indices,
    fid: int,
    s: GState,
    op: Operator,
    loc: u32,
) -> Result<GState, ErrorKind> {
    match op {
        Operator::Call(fi) => if fi as int >= ix.funcs@.len() {
            Err(ErrorKind::UnknownIndex)
        } else {
            let func = ix.funcs@[fi as int];
            let tid = m.funcs@[func as int];
            g_simple_step(
                s,
                m.types@[tid as int].params@,
                m.types@[tid as int].results@,
                GInstr::Plain(Instr::Call(func)),
                loc,
            )
        },
        Operator::CallIndirect { type_index, table_index } => if type_index as int
            >= ix.types@.len() {
            Err(ErrorKind::UnknownIndex)
        } else if table_index as int >= ix.tables@.len() {
            Err(ErrorKind::UnknownIndex)
        } else {
            let tid = ix.types@[type_index as int];
            let table = ix.tables@[table_index as int];
            g_simple_step(
                s,
                m.types@[tid as int].params@.push(ValType::I32),
                m.types@[tid as int].results@,
                GInstr::Plain(Instr::CallIndirect { ty: tid, table }),
                loc,
            )
        },
        Operator::LocalGet(li) => if !(fid < ix.locals@.len() && (li as int) < ix.locals@[fid]@.len()) {
            Err(ErrorKind::UnknownIndex)
        } else {
            let local = ix.locals@[fid]@[li as int];
            g_simple_step(
                s,
                Seq::empty(),
                seq![m.locals@[local as int]],
                GInstr::Plain(Instr::LocalGet(local)),
                loc,
            )
        },
        Operator::LocalSet(li) => if !(fid < ix.locals@.len() && (li as int) < ix.locals@[fid]@.len()) {
            Err(ErrorKind::UnknownIndex)
        } else {
            let local = ix.locals@[fid]@[li as int];
            g_simple_step(
                s,
                seq![m.locals@[local as int]],
                Seq::empty(),
                GInstr::Plain(Instr::LocalSet(local)),
                loc,
            )
        },
        Operator::LocalTee(li) => if !(fid < ix.locals@.len() && (li as int) < ix.locals@[fid]@.len()) {
            Err(ErrorKind::UnknownIndex)
        } else {
            let local = ix.locals@[fid]@[li as int];
            g_simple_step(
                s,
                seq![m.locals@[local as int]],
                seq![m.locals@[local as int]],
                GInstr::Plain(Instr::LocalTee(local)),
                loc,
            )
        },
        Operator::GlobalGet(gi) => if gi as int >= ix.globals@.len() {
            Err(ErrorKind::UnknownIndex)
        } else {
            let g = ix.globals@[gi as int];
            g_simple_step(
                s,
                Seq::empty(),
                seq![m.globals@[g as int]],
                GInstr::Plain(Instr::GlobalGet(g)),
                loc,
            )
        },
        Operator::GlobalSet(gi) => if gi as int >= ix.globals@.len() {
            Err(ErrorKind::UnknownIndex)
        } else {
            let g = ix.globals@[gi as int];
            g_simple_step(
                s,
                seq![m.globals@[g as int]],
                Seq::empty(),
                GInstr::Plain(Instr::GlobalSet(g)),
                loc,
            )
        },
        _ => Err(ErrorKind::MalformedOperator),
    }
}

/// Step of the whole-memory operators and `data.drop`.
pub open spec fn g_memory_misc_step(ix: Indices, s: GState, op: Operator, loc: u32) -> Result<
    GState,
    ErrorKind,
> {
    match op {
        Operator::MemorySize { reserved } => if reserved != 0 {
            Err(ErrorKind::MalformedReservedByte)
        } else if ix.memories@.len() == 0 {
            Err(ErrorKind::UnknownIndex)
        } else {
            g_simple_step(
                s,
                Seq::empty(),
                seq![ValType::I32],
                GInstr::Plain(Instr::MemorySize(ix.memories@[0])),
                loc,
            )
        },
        Operator::MemoryGrow { reserved } => if reserved != 0 {
            Err(ErrorKind::MalformedReservedByte)
        } else {
            let f = g_top(s);
            match spec_pop(s.operands, f.height, f.unreachable, Some(ValType::I32)) {
                Err(k) => Err(k),
                Ok(p1) => if ix.memories@.len() == 0 {
                    Err(ErrorKind::UnknownIndex)
                } else {
                    Ok(
                        g_append(
                            g_with_operands(s, p1.0.push(Some(ValType::I32))),
                            f.block,
                            GInstr::Plain(Instr::MemoryGrow(ix.memories@[0])),
                            loc,
                        ),
                    )
                },
            }
        },
        Operator::DataDrop { segment } => if segment as int >= ix.data@.len() {
            Err(ErrorKind::UnknownIndex)
        } else {
            g_simple_step(
                s,
                Seq::empty(),
                Seq::empty(),
                GInstr::Plain(Instr::DataDrop(ix.data@[segment as int])),
                loc,
            )
        },
        _ => Err(ErrorKind::MalformedOperator),
    }
}

/// Step of the bulk-memory operators.
pub open spec fn g_memory_bulk_step(ix: Indices, s: GState, op: Operator, loc: u32) -> Result<
    GState,
    ErrorKind,
> {
    let f = g_top(s);
    let i32x3 = seq![ValType::I32, ValType::I32, ValType::I32];
    match op {
        Operator::MemoryInit { segment } => match spec_pop_many(
            s.operands,
            f.height,
            f.unreachable,
            i32x3,
        ) {
            Err(k) => Err(k),
            Ok(st2) => if ix.memories@.len() == 0 {
                Err(ErrorKind::UnknownIndex)
            } else if segment as int >= ix.data@.len() {
                Err(ErrorKind::UnknownIndex)
            } else {
                Ok(
                    g_append(
                        g_with_operands(s, st2),
                        f.block,
                        GInstr::Plain(
                            Instr::MemoryInit {
                                memory: ix.memories@[0],
                                data: ix.data@[segment as int],
                            },
                        ),
                        loc,
                    ),
                )
            },
        },
        Operator::MemoryCopy => match spec_pop_many(s.operands, f.height, f.unreachable, i32x3) {
            Err(k) => Err(k),
            Ok(st2) => if ix.memories@.len() == 0 {
                Err(ErrorKind::UnknownIndex)
            } else {
                Ok(
                    g_append(
                        g_with_operands(s, st2),
                        f.block,
                        GInstr::Plain(
                            Instr::MemoryCopy { src: ix.memories@[0], dst: ix.memories@[0] },
                        ),
                        loc,
                    ),
                )
            },
        },
        Operator::MemoryFill => match spec_pop_many(s.operands, f.height, f.unreachable, i32x3) {
            Err(k) => Err(k),
            Ok(st2) => if ix.memories@.len() == 0 {
                Err(ErrorKind::UnknownIndex)
            } else {
                Ok(
                    g_append(
                        g_with_operands(s, st2),
                        f.block,
                        GInstr::Plain(Instr::MemoryFill(ix.memories@[0])),
                        loc,
                    ),
                )
            },
        },
        _ => Err(ErrorKind::MalformedOperator),
    }
}

/// Step of `atomic.fence` and the wait/notify operators.
pub open spec fn g_sync_step(ix: Indices, s: GState, op: Operator, loc: u32) -> Result<
    GState,
    ErrorKind,
> {
    match op {
        Operator::AtomicFence { flags } => if flags != 0 {
            Err(ErrorKind::UnsupportedAtomicFence)
        } else {
            g_simple_step(s, Seq::empty(), Seq::empty(), GInstr::Plain(Instr::AtomicFence), loc)
        },
        Operator::AtomicNotify { memarg } => g_mem_step(
            ix,
            s,
            seq![ValType::I32, ValType::I32],
            seq![ValType::I32],
            memarg.flags,
            GInstr::Plain(
                Instr::AtomicNotify { memory: ix.memories@[0], arg: g_mem_arg(memarg) },
            ),
            loc,
        ),
        Operator::AtomicWait { memarg, sixty_four } => {
            let t = if sixty_four {
                ValType::I64
            } else {
                ValType::I32
            };
            g_mem_step(
                ix,
                s,
                seq![ValType::I32, t, ValType::I64],
                seq![ValType::I32],
                memarg.flags,
                GInstr::Plain(
                    Instr::AtomicWait {
                        memory: ix.memories@[0],
                        arg: g_mem_arg(memarg),
                        sixty_four,
                    },
                ),
                loc,
            )
        },
        _ => Err(ErrorKind::MalformedOperator),
    }
}

/// Step of the table operators addressed by table index.
pub open spec fn g_table_ref_step(
    m: ModuleInfo,
    ix: Indices,
    s: GState,
    op: Operator,
    loc: u32,
) -> Result<GState, ErrorKind> {
    match op {
        Operator::TableGet(ti) => if ti as int >= ix.tables@.len() {
            Err(ErrorKind::UnknownIndex)
        } else {
            let t = ix.tables@[ti as int];
            g_simple_step(
                s,
                seq![ValType::I32],
                seq![m.tables@[t as int]],
                GInstr::Plain(Instr::TableGet(t)),
                loc,
            )
        },
        Operator::TableSet(ti) => if ti as int >= ix.tables@.len() {
            Err(ErrorKind::UnknownIndex)
        } else {
            let t = ix.tables@[ti as int];
            g_simple_step(
                s,
                seq![ValType::I32, m.tables@[t as int]],
                Seq::empty(),
                GInstr::Plain(Instr::TableSet(t)),
                loc,
            )
        },
        Operator::TableGrow(ti) => if ti as int >= ix.tables@.len() {
            Err(ErrorKind::UnknownIndex)
        } else {
            let t = ix.tables@[ti as int];
            g_simple_step(
                s,
                seq![m.tables@[t as int], ValType::I32],
                seq![ValType::I32],
                GInstr::Plain(Instr::TableGrow(t)),
                loc,
            )
        },
        Operator::TableSize(ti) => if ti as int >= ix.tables@.len() {
            Err(ErrorKind::UnknownIndex)
        } else {
            let t = ix.tables@[ti as int];
            g_simple_step(
                s,
                Seq::empty(),
                seq![ValType::I32],
                GInstr::Plain(Instr::TableSize(t)),
                loc,
            )
        },
        Operator::TableFill(ti) => if ti as int >= ix.tables@.len() {
            Err(ErrorKind::UnknownIndex)
        } else {
            let t = ix.tables@[ti as int];
            g_simple_step(
                s,
                seq![ValType::I32, m.tables@[t as int], ValType::I32],
                Seq::empty(),
                GInstr::Plain(Instr::TableFill(t)),
                loc,
            )
        },
        _ => Err(ErrorKind::MalformedOperator),
    }
}

/// Step of the reference operators and the table segment operators.
pub open spec fn g_ref_seg_step(
    m: ModuleInfo,
    ix: Indices,
    s: GState,
    op: Operator,
    loc: u32,
) -> Result<GState, ErrorKind> {
    let i32x3 = seq![ValType::I32, ValType::I32, ValType::I32];
    match op {
        Operator::RefNull(ty) => g_simple_step(
            s,
            Seq::empty(),
            seq![ty],
            GInstr::Plain(Instr::RefNull(ty)),
            loc,
        ),
        Operator::RefIsNull(ty) => g_simple_step(
            s,
            seq![ty],
            seq![ValType::I32],
            GInstr::Plain(Instr::RefIsNull(ty)),
            loc,
        ),
        Operator::RefFunc(fi) => if fi as int >= ix.funcs@.len() {
            Err(ErrorKind::UnknownIndex)
        } else {
            g_simple_step(
                s,
                Seq::empty(),
                seq![ValType::Funcref],
                GInstr::Plain(Instr::RefFunc(ix.funcs@[fi as int])),
                loc,
            )
        },
        Operator::TableCopy { src_table, dst_table } => if src_table as int >= ix.tables@.len() {
            Err(ErrorKind::UnknownIndex)
        } else if dst_table as int >= ix.tables@.len() {
            Err(ErrorKind::UnknownIndex)
        } else {
            let src = ix.tables@[src_table as int];
            let dst = ix.tables@[dst_table as int];
            if m.tables@[src as int] != m.tables@[dst as int] {
                Err(ErrorKind::TypeMismatch)
            } else {
                g_simple_step(
                    s,
                    i32x3,
                    Seq::empty(),
                    GInstr::Plain(Instr::TableCopy { src, dst }),
                    loc,
                )
            }
        },
        Operator::TableInit { segment, table } => if segment as int >= ix.elements@.len() {
            Err(ErrorKind::UnknownIndex)
        } else if table as int >= ix.tables@.len() {
            Err(ErrorKind::UnknownIndex)
        } else {
            let elem = ix.elements@[segment as int];
            let t = ix.tables@[table as int];
            if m.elements@[elem as int] != m.tables@[t as int] {
                Err(ErrorKind::TypeMismatch)
            } else {
                g_simple_step(
                    s,
                    i32x3,
                    Seq::empty(),
                    GInstr::Plain(Instr::TableInit { elem, table: t }),
                    loc,
                )
            }
        },
        Operator::ElemDrop { segment } => if segment as int >= ix.elements@.len() {
            Err(ErrorKind::UnknownIndex)
        } else {
            g_simple_step(
                s,
                Seq::empty(),
                Seq::empty(),
                GInstr::Plain(Instr::ElemDrop(ix.elements@[segment as int])),
                loc,
            )
        },
        _ => Err(ErrorKind::MalformedOperator),
    }
}

/// One step of the validator: what processing one decoded operator in
/// state `s` yields — the next state, or the error kind the operator is
/// rejected with.
pub open spec fn spec_step(
    m: ModuleInfo,
    ix: Indices,
    fid: int,
    s: GState,
    op: Operator,
    loc: u32,
) -> Result<GState, ErrorKind> {
    match op {
        Operator::Nop => Ok(s),
        Operator::Unreachable => g_unreachable_step(s, loc),
        Operator::Return => g_return_step(m, fid, s, loc),
        Operator::Block(bt) => g_block_step(m, ix, s, bt, loc),
        Operator::Loop(bt) => g_loop_step(m, ix, s, bt, loc),
        Operator::If(bt) => g_if_step(m, ix, s, bt, loc),
        Operator::Else => g_else_step(s, loc),
        Operator::End => g_end_step(s, loc),
        Operator::Br(depth) => g_br_step(s, depth, loc),
        Operator::BrIf(depth) => g_br_if_step(s, depth, loc),
        Operator::BrTable(t) => g_br_table_step(s, t.labels@, t.default, loc),
        Operator::Unop(u) => g_simple_step(
            s,
            seq![spec_unop_sig(u).0],
            seq![spec_unop_sig(u).1],
            GInstr::Plain(Instr::Unop(u)),
            loc,
        ),
        Operator::Binop(b) => g_simple_step(
            s,
            seq![spec_binop_sig(b).0, spec_binop_sig(b).1],
            seq![spec_binop_sig(b).2],
            GInstr::Plain(Instr::Binop(b)),
            loc,
        ),
        Operator::Load { memarg, kind } => g_mem_step(
            ix,
            s,
            seq![ValType::I32],
            seq![spec_load_ty(kind)],
            memarg.flags,
            GInstr::Plain(
                Instr::Load { memory: ix.memories@[0], arg: g_mem_arg(memarg), kind },
            ),
            loc,
        ),
        Operator::Store { memarg, kind } => g_mem_step(
            ix,
            s,
            seq![ValType::I32, spec_store_ty(kind)],
            Seq::empty(),
            memarg.flags,
            GInstr::Plain(
                Instr::Store { memory: ix.memories@[0], arg: g_mem_arg(memarg), kind },
            ),
            loc,
        ),
        Operator::AtomicRmw { memarg, op: aop, width } => g_mem_step(
            ix,
            s,
            seq![ValType::I32, spec_atomic_ty(width)],
            seq![spec_atomic_ty(width)],
            memarg.flags,
            GInstr::Plain(
                Instr::AtomicRmw {
                    memory: ix.memories@[0],
                    arg: g_mem_arg(memarg),
                    op: aop,
                    width,
                },
            ),
            loc,
        ),
        Operator::Cmpxchg { memarg, width } => g_mem_step(
            ix,
            s,
            seq![ValType::I32, spec_atomic_ty(width), spec_atomic_ty(width)],
            seq![spec_atomic_ty(width)],
            memarg.flags,
            GInstr::Plain(
                Instr::Cmpxchg { memory: ix.memories@[0], arg: g_mem_arg(memarg), width },
            ),
            loc,
        ),
        Operator::LoadSimd { memarg, kind } => g_mem_step(
            ix,
            s,
            seq![ValType::I32],
            seq![ValType::V128],
            memarg.flags,
            GInstr::Plain(
                Instr::LoadSimd { memory: ix.memories@[0], arg: g_mem_arg(memarg), kind },
            ),
            loc,
        ),
        Operator::Drop | Operator::Select | Operator::TypedSelect(_) | Operator::Const(_)
            => g_parametric_step(s, op, loc),
        Operator::V128Const(_) | Operator::V128Bitselect | Operator::V128Swizzle
        | Operator::V128Shuffle { .. } => g_vector_step(s, op, loc),
        Operator::Call(_) | Operator::CallIndirect { .. } | Operator::LocalGet(_)
        | Operator::LocalSet(_) | Operator::LocalTee(_) | Operator::GlobalGet(_)
        | Operator::GlobalSet(_) => g_call_var_step(m, ix, fid, s, op, loc),
        Operator::MemorySize { .. } | Operator::MemoryGrow { .. } | Operator::DataDrop { .. }
            => g_memory_misc_step(ix, s, op, loc),
        Operator::MemoryInit { .. } | Operator::MemoryCopy | Operator::MemoryFill
            => g_memory_bulk_step(ix, s, op, loc),
        Operator::AtomicFence { .. } | Operator::AtomicNotify { .. }
        | Operator::AtomicWait { .. } => g_sync_step(ix, s, op, loc),
        Operator::TableGet(_) | Operator::TableSet(_) | Operator::TableGrow(_)
        | Operator::TableSize(_) | Operator::TableFill(_) => g_table_ref_step(m, ix, s, op, loc),
        Operator::RefNull(_) | Operator::RefIsNull(_) | Operator::RefFunc(_)
        | Operator::TableCopy { .. } | Operator::TableInit { .. } | Operator::ElemDrop { .. }
            => g_ref_seg_step(m, ix, s, op, loc),
    }
}

/// The state a function body's validation starts in: the entry frame at
/// the bottom of the control stack, over an empty operand stack, with
/// the function's result types as its results and the entry sequence as
/// its block.
pub open spec fn spec_init(m: ModuleInfo, ty: usize) -> GState {
    GState {
        operands: Seq::empty(),
        controls: seq![
            GFrame {
                kind: BlockKind::FunctionEntry,
                start_types: Seq::empty(),
                end_types: m.types@[ty as int].results@,
                height: 0,
                unreachable: false,
                block: 0,
            },
        ],
        if_else: Seq::empty(),
        arena: seq![GSeq { ty: BlockType::Empty, instrs: Seq::empty() }],
    }
}

/// The whole run over an operator sequence: each operator steps the
/// state; an operator after the entry frame has closed is a stream
/// error; a stream that ends with frames still open is an unexpected
/// end of file reported at `eof_off`.  Every error carries the byte
/// offset of the operator it arose at.
pub open spec fn spec_run(
    m: ModuleInfo,
    ix: Indices,
    fid: int,
    s: GState,
    ops: Seq<(Operator, u32)>,
    eof_off: u32,
) -> Result<GState, ValError>
    decreases ops.len(),
{
    if ops.len() == 0 {
        if s.controls.len() == 0 {
            Ok(s)
        } else {
            Err(ValError { kind: ErrorKind::UnexpectedEof, offset: eof_off })
        }
    } else if s.controls.len() == 0 {
        Err(ValError { kind: ErrorKind::MalformedOperator, offset: ops[0].1 })
    } else {
        match spec_step(m, ix, fid, s, ops[0].0, ops[0].1) {
            Err(k) => Err(ValError { kind: k, offset: ops[0].1 }),
            Ok(s2) => spec_run(m, ix, fid, s2, ops.drop_first(), eof_off),
        }
    }
}

/// What parsing a whole body yields: the final state when every
/// operator checks and the entry frame's `end` closes the body, or the
/// first error with its offset.  This is the function `parse` computes.
pub open spec fn spec_parse(
    m: ModuleInfo,
    ix: Indices,
    fid: int,
    ty: usize,
    ops: Seq<(Operator, u32)>,
) -> Result<GState, ValError> {
    spec_run(
        m,
        ix,
        fid,
        spec_init(m, ty),
        ops,
        if ops.len() == 0 {
            0u32
        } else {
            ops.last().1
        },
    )
}

/// A one-type pop vector is one checked pop.
pub proof fn lemma_pop_one(stack: Seq<Option<ValType>>, h: int, u: bool, t: ValType)
    ensures
        ({
            let pm = spec_pop_many(stack, h, u, seq![t]);
            let p = spec_pop(stack, h, u, Some(t));
            &&& (pm is Ok <==> p is Ok)
            &&& (pm is Ok ==> pm->Ok_0 == p->Ok_0.0)
            &&& (pm is Err ==> pm->Err_0 == p->Err_0)
        }),
{
    reveal_with_fuel(spec_pop_many, 3);
    let e = seq![t];
    assert(e.last() == t);
    assert(e.drop_last() =~= Seq::<ValType>::empty());
}

/// A two-type pop vector pops its last type, then its first.
pub proof fn lemma_pop_two(stack: Seq<Option<ValType>>, h: int, u: bool, a: ValType, b: ValType)
    ensures
        ({
            let pm = spec_pop_many(stack, h, u, seq![a, b]);
            let p1 = spec_pop(stack, h, u, Some(b));
            let p2 = spec_pop(p1->Ok_0.0, h, u, Some(a));
            &&& (pm is Ok <==> p1 is Ok && p2 is Ok)
            &&& (pm is Ok ==> pm->Ok_0 == p2->Ok_0.0)
            &&& (pm is Err ==> pm->Err_0 == (if p1 is Err {
                p1->Err_0
            } else {
                p2->Err_0
            }))
        }),
{
    reveal_with_fuel(spec_pop_many, 3);
    let e = seq![a, b];
    assert(e.last() == b);
    assert(e.drop_last() =~= seq![a]);
    match spec_pop(stack, h, u, Some(b)) {
        Ok(p1) => {
            lemma_pop_one(p1.0, h, u, a);
        }
        Err(_) => {}
    }
}

/// A three-type pop vector pops back to front.
pub proof fn lemma_pop_three(
    stack: Seq<Option<ValType>>,
    h: int,
    u: bool,
    a: ValType,
    b: ValType,
    c: ValType,
)
    ensures
        ({
            let pm = spec_pop_many(stack, h, u, seq![a, b, c]);
            let p1 = spec_pop(stack, h, u, Some(c));
            let p2 = spec_pop(p1->Ok_0.0, h, u, Some(b));
            let p3 = spec_pop(p2->Ok_0.0, h, u, Some(a));
            &&& (pm is Ok <==> p1 is Ok && p2 is Ok && p3 is Ok)
            &&& (pm is Ok ==> pm->Ok_0 == p3->Ok_0.0)
            &&& (pm is Err ==> pm->Err_0 == (if p1 is Err {
                p1->Err_0
            } else if p2 is Err {
                p2->Err_0
            } else {
                p3->Err_0
            }))
        }),
{
    reveal_with_fuel(spec_pop_many, 3);
    let e = seq![a, b, c];
    assert(e.last() == c);
    assert(e.drop_last() =~= seq![a, b]);
    match spec_pop(stack, h, u, Some(c)) {
        Ok(p1) => {
            lemma_pop_two(p1.0, h, u, a, b);
        }
        Err(_) => {}
    }
}

/// Pushing one concrete type is pushing a one-type vector.
pub proof fn lemma_push_one(stack: Seq<Option<ValType>>, t: ValType)
    ensures
        push_tys(stack, seq![t]) == stack.push(Some(t)),
{
    assert(push_tys(stack, seq![t]) =~= stack.push(Some(t)));
}

/// Pushing an empty vector changes nothing.
pub proof fn lemma_push_none(stack: Seq<Option<ValType>>)
    ensures
        push_tys(stack, Seq::empty()) == stack,
{
    assert(push_tys(stack, Seq::<ValType>::empty()) =~= stack);
}

/// The ghost form of a state whose stacks and arena equal another's,
/// with one instruction appended to the sequence stored at `b`.
pub proof fn lemma_abs_append_at(v0: Validator, v1: Validator, b: int, i: Instr, loc: u32)
    requires
        v1.controls@ == v0.controls@,
        v1.if_else@ == v0.if_else@,
        v1.arena@.len() == v0.arena@.len(),
        0 <= b < v0.arena@.len(),
        forall|x: int| 0 <= x < v0.arena@.len() && x != b ==> v1.arena@[x] == v0.arena@[x],
        v1.arena@[b].ty == v0.arena@[b].ty,
        v1.arena@[b].instrs@ == v0.arena@[b].instrs@.push((i, loc)),
    ensures
        abs(v1) == g_append(g_with_operands(abs(v0), v1.operands@), b, abs_instr(i), loc),
{
    let lhs = abs(v1);
    let rhs = g_append(g_with_operands(abs(v0), v1.operands@), b, abs_instr(i), loc);
    assert(lhs.arena =~~= rhs.arena) by {
        assert forall|x: int| 0 <= x < lhs.arena.len() implies lhs.arena[x] =~~= rhs.arena[x] by {
            if x == b {
                assert(abs_seq(v1.arena@[b]).instrs
                    =~~= abs_seq(v0.arena@[b]).instrs.push((abs_instr(i), loc)));
            }
        }
    }
    assert(lhs =~~= rhs);
}

/// The ghost form of a state after `mark_unreachable`.
pub proof fn lemma_abs_mark(v0: Validator, v1: Validator)
    requires
        v0.controls@.len() >= 1,
        v1.arena@ == v0.arena@,
        v1.if_else@ == v0.if_else@,
        v1.operands@ == v0.operands@.subrange(0, v0.controls@.last().height as int),
        v1.controls@.len() == v0.controls@.len(),
        forall|i: int| 0 <= i < v0.controls@.len() - 1 ==> v1.controls@[i] == v0.controls@[i],
        v1.controls@.last().kind == v0.controls@.last().kind,
        v1.controls@.last().block == v0.controls@.last().block,
        v1.controls@.last().height == v0.controls@.last().height,
        v1.controls@.last().unreachable == true,
        v1.controls@.last().start_types@ == v0.controls@.last().start_types@,
        v1.controls@.last().end_types@ == v0.controls@.last().end_types@,
    ensures
        abs(v1) == g_unreachable(abs(v0)),
{
    assert(abs(v1).controls =~~= g_unreachable(abs(v0)).controls);
    assert(abs(v1) =~~= g_unreachable(abs(v0)));
}

} // verus!
