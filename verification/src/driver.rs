//! The validation driver: pulls one decoded operator at a time, updates
//! the operand and control stacks, and emits IR nodes, in the order
//! pop checks, side-effect checks, append, push.

use vstd::prelude::*;
use crate::types::{copy_types, types_eq, Indices, ModuleInfo, ValType};
use crate::err::ErrorKind;
use crate::ir::{total_instrs, Instr, InstrSeq, MemArg};
use crate::ops::{
    AtomicOp, AtomicWidth, BlockType, BrTableData, LoadKind, LoadSimdKind, MemImm, Operator,
    StoreKind, UnaryOp, BinaryOp, Value,
    unop_sig, binop_sig, load_ty, store_ty, atomic_ty, value_ty, v128_to_u128,
    spec_unop_sig, spec_binop_sig, spec_load_ty, spec_store_ty, spec_atomic_ty, spec_value_ty,
    spec_v128_val,
};
use crate::validate::{
    arena_locals_ok, compat, decode_mem_arg, op_nodes, push_tys, spec_pop,
    spec_pop_many, unified, BlockKind, Frame, IfElseState, Validator,
    ifelse_match, lemma_ifelse_match_grow, lemma_ifelse_match_same, lemma_pop_many_err_kinds,
    lemma_pop_many_prefix,
};
use crate::step::{
    abs, abs_frame, abs_instr, abs_seq, g_append, g_block_step, g_br_if_step, g_br_step,
    g_br_table_labels, g_br_table_step, g_call_var_step, g_else_step, g_end_step, g_if_step,
    g_loop_step, g_mem_arg, g_mem_step, g_memory_bulk_step, g_memory_misc_step, g_open,
    g_parametric_step, g_pop_control, g_ref_seg_step, g_return_step, g_simple_step, g_sync_step,
    g_table_ref_step, g_top, g_unreachable_step, g_vector_step, g_with_operands,
    lemma_abs_append_at, lemma_abs_mark, lemma_pop_one, lemma_pop_three, lemma_pop_two,
    lemma_push_none, lemma_push_one, spec_step, GInstr, GState,
};

verus! {

/// The `n`-th control frame from the top.
pub open spec fn frame_at(st: Validator, n: int) -> Frame {
    st.controls@[st.controls@.len() - 1 - n]
}

/// The two states hold the same stacks and arena (the operand stack
/// compared by view).
pub open spec fn same_state(s0: Validator, s1: Validator) -> bool {
    &&& s1.operands@ == s0.operands@
    &&& s1.controls == s0.controls
    &&& s1.if_else == s0.if_else
    &&& s1.arena == s0.arena
}

/// One ordinary validation step: the control structures are untouched,
/// the operand stack becomes `stack1`, and `instr` is appended to the
/// sequence of the top frame.
pub open spec fn simple_step(
    s0: Validator,
    s1: Validator,
    instr: Instr,
    loc: u32,
    stack1: Seq<Option<ValType>>,
) -> bool {
    &&& s1.controls == s0.controls
    &&& s1.if_else == s0.if_else
    &&& s1.operands@ == stack1
    &&& s1.arena@.len() == s0.arena@.len()
    &&& (forall|i: int| 0 <= i < s0.arena@.len() && i != s0.top().block
            ==> s1.arena@[i] == s0.arena@[i])
    &&& s1.arena@[s0.top().block as int].ty == s0.arena@[s0.top().block as int].ty
    &&& s1.arena@[s0.top().block as int].instrs@
            == s0.arena@[s0.top().block as int].instrs@.push((instr, loc))
    &&& total_instrs(s1.arena@) == total_instrs(s0.arena@) + 1
}

/// Pops `input`, appends the unary operator, pushes `output`.
fn one_op(
    st: &mut Validator,
    input: ValType,
    output: ValType,
    op: UnaryOp,
    loc: u32,
) -> (r: Result<(), ErrorKind>)
    requires
        old(st).stacks_wf(),
        old(st).controls@.len() >= 1,
    ensures
        final(st).stacks_wf(),
        final(st).arena@.len() >= old(st).arena@.len(),
        ({
            let sp = spec_pop(
                old(st).operands@,
                old(st).top().height as int,
                old(st).top().unreachable,
                Some(input),
            );
            &&& (r is Ok <==> sp is Ok)
            &&& (r is Ok ==> simple_step(
                    *old(st),
                    *final(st),
                    Instr::Unop(op),
                    loc,
                    sp->Ok_0.0.push(Some(output)),
                ))
            &&& (r is Err ==> same_state(*old(st), *final(st)) && r->Err_0 == sp->Err_0)
        }),
        ({
            let stp = g_simple_step(
                abs(*old(st)),
                seq![input],
                seq![output],
                GInstr::Plain(Instr::Unop(op)),
                loc,
            );
            &&& (r is Ok <==> stp is Ok)
            &&& (r is Ok ==> abs(*final(st)) == stp->Ok_0)
            &&& (r is Err ==> r->Err_0 == stp->Err_0)
        }),
{
    proof {
        lemma_pop_one(
            old(st).operands@,
            old(st).top().height as int,
            old(st).top().unreachable,
            input,
        );
        assert(g_top(abs(*old(st))) == abs_frame(old(st).top()));
    }
    match st.pop_expected(Some(input)) {
        Err(k) => {
            return Err(k);
        }
        Ok(_) => {}
    }
    match st.alloc_instr_in(0, Instr::Unop(op), loc) {
        Ok(_) => {}
        Err(_) => {
            proof {
                assert(false);
            }
        }
    }
    st.push_operand(Some(output));
    proof {
        let sp = spec_pop(
            old(st).operands@,
            old(st).top().height as int,
            old(st).top().unreachable,
            Some(input),
        );
        lemma_push_one(sp->Ok_0.0, output);
        lemma_abs_append_at(
            *old(st),
            *st,
            old(st).top().block as int,
            Instr::Unop(op),
            loc,
        );
    }
    Ok(())
}

/// Pops `rhs` then `lhs`, appends the binary operator, pushes `output`.
fn two_ops(
    st: &mut Validator,
    lhs: ValType,
    rhs: ValType,
    output: ValType,
    op: BinaryOp,
    loc: u32,
) -> (r: Result<(), ErrorKind>)
    requires
        old(st).stacks_wf(),
        old(st).controls@.len() >= 1,
    ensures
        final(st).stacks_wf(),
        final(st).arena@.len() >= old(st).arena@.len(),
        ({
            let h = old(st).top().height as int;
            let u = old(st).top().unreachable;
            let sp1 = spec_pop(old(st).operands@, h, u, Some(rhs));
            &&& (r is Ok <==> sp1 is Ok && spec_pop(sp1->Ok_0.0, h, u, Some(lhs)) is Ok)
            &&& (r is Ok ==> simple_step(
                    *old(st),
                    *final(st),
                    Instr::Binop(op),
                    loc,
                    spec_pop(sp1->Ok_0.0, h, u, Some(lhs))->Ok_0.0.push(Some(output)),
                ))
            &&& (r is Err ==> final(st).controls == old(st).controls
                    && final(st).if_else == old(st).if_else
                    && final(st).arena == old(st).arena
                    && r->Err_0 == (if sp1 is Err {
                        sp1->Err_0
                    } else {
                        spec_pop(sp1->Ok_0.0, h, u, Some(lhs))->Err_0
                    }))
        }),
        ({
            let stp = g_simple_step(
                abs(*old(st)),
                seq![lhs, rhs],
                seq![output],
                GInstr::Plain(Instr::Binop(op)),
                loc,
            );
            &&& (r is Ok <==> stp is Ok)
            &&& (r is Ok ==> abs(*final(st)) == stp->Ok_0)
            &&& (r is Err ==> r->Err_0 == stp->Err_0)
        }),
{
    proof {
        lemma_pop_two(
            old(st).operands@,
            old(st).top().height as int,
            old(st).top().unreachable,
            lhs,
            rhs,
        );
        assert(g_top(abs(*old(st))) == abs_frame(old(st).top()));
    }
    match st.pop_expected(Some(rhs)) {
        Err(k) => {
            return Err(k);
        }
        Ok(_) => {}
    }
    match st.pop_expected(Some(lhs)) {
        Err(k) => {
            return Err(k);
        }
        Ok(_) => {}
    }
    match st.alloc_instr_in(0, Instr::Binop(op), loc) {
        Ok(_) => {}
        Err(_) => {
            proof {
                assert(false);
            }
        }
    }
    st.push_operand(Some(output));
    proof {
        let h = old(st).top().height as int;
        let u = old(st).top().unreachable;
        let sp1 = spec_pop(old(st).operands@, h, u, Some(rhs));
        let sp2 = spec_pop(sp1->Ok_0.0, h, u, Some(lhs));
        lemma_push_one(sp2->Ok_0.0, output);
        lemma_abs_append_at(
            *old(st),
            *st,
            old(st).top().block as int,
            Instr::Binop(op),
            loc,
        );
    }
    Ok(())
}

/// Pops the address, resolves memory 0 and the immediate, appends the
/// load, pushes the loaded type.
fn load_op(
    st: &mut Validator,
    ix: &Indices,
    memarg: MemImm,
    kind: LoadKind,
    loc: u32,
) -> (r: Result<(), ErrorKind>)
    requires
        old(st).stacks_wf(),
        old(st).controls@.len() >= 1,
    ensures
        final(st).stacks_wf(),
        final(st).arena@.len() >= old(st).arena@.len(),
        final(st).controls == old(st).controls,
        final(st).if_else == old(st).if_else,
        ({
            let h = old(st).top().height as int;
            let u = old(st).top().unreachable;
            let sp = spec_pop(old(st).operands@, h, u, Some(ValType::I32));
            &&& (r is Ok <==> sp is Ok && ix.memories@.len() > 0 && memarg.flags < 32)
            &&& (r is Ok ==> simple_step(
                    *old(st),
                    *final(st),
                    Instr::Load {
                        memory: ix.memories@[0],
                        arg: (MemArg { align: 1u32 << memarg.flags, offset: memarg.offset }),
                        kind,
                    },
                    loc,
                    sp->Ok_0.0.push(Some(spec_load_ty(kind))),
                ))
            &&& (r is Err ==> final(st).arena == old(st).arena
                    && r->Err_0 == (if sp is Err {
                        sp->Err_0
                    } else if ix.memories@.len() == 0 {
                        ErrorKind::UnknownIndex
                    } else {
                        ErrorKind::InvalidAlignment
                    }))
        }),
        ({
            let stp = g_mem_step(
                *ix,
                abs(*old(st)),
                seq![ValType::I32],
                seq![spec_load_ty(kind)],
                memarg.flags,
                GInstr::Plain(
                    Instr::Load { memory: ix.memories@[0], arg: g_mem_arg(memarg), kind },
                ),
                loc,
            );
            &&& (r is Ok <==> stp is Ok)
            &&& (r is Ok ==> abs(*final(st)) == stp->Ok_0)
            &&& (r is Err ==> r->Err_0 == stp->Err_0)
        }),
{
    proof {
        lemma_pop_one(
            old(st).operands@,
            old(st).top().height as int,
            old(st).top().unreachable,
            ValType::I32,
        );
        assert(g_top(abs(*old(st))) == abs_frame(old(st).top()));
    }
    match st.pop_expected(Some(ValType::I32)) {
        Err(k) => {
            return Err(k);
        }
        Ok(_) => {}
    }
    let memory = match ix.get_memory(0) {
        Ok(m) => m,
        Err(k) => {
            return Err(k);
        }
    };
    let arg = match decode_mem_arg(&memarg) {
        Ok(a) => a,
        Err(k) => {
            return Err(k);
        }
    };
    let t = load_ty(kind);
    match st.alloc_instr_in(0, Instr::Load { memory, arg, kind }, loc) {
        Ok(_) => {}
        Err(_) => {
            proof {
                assert(false);
            }
        }
    }
    st.push_operand(Some(t));
    proof {
        let sp = spec_pop(
            old(st).operands@,
            old(st).top().height as int,
            old(st).top().unreachable,
            Some(ValType::I32),
        );
        lemma_push_one(sp->Ok_0.0, spec_load_ty(kind));
        lemma_abs_append_at(
            *old(st),
            *st,
            old(st).top().block as int,
            Instr::Load { memory, arg, kind },
            loc,
        );
    }
    Ok(())
}

/// Pops the stored value and the address, resolves memory 0 and the
/// immediate, appends the store.
fn store_op(
    st: &mut Validator,
    ix: &Indices,
    memarg: MemImm,
    kind: StoreKind,
    loc: u32,
) -> (r: Result<(), ErrorKind>)
    requires
        old(st).stacks_wf(),
        old(st).controls@.len() >= 1,
    ensures
        final(st).stacks_wf(),
        final(st).arena@.len() >= old(st).arena@.len(),
        final(st).controls == old(st).controls,
        final(st).if_else == old(st).if_else,
        ({
            let h = old(st).top().height as int;
            let u = old(st).top().unreachable;
            let sp1 = spec_pop(old(st).operands@, h, u, Some(spec_store_ty(kind)));
            let sp2 = spec_pop(sp1->Ok_0.0, h, u, Some(ValType::I32));
            &&& (r is Ok <==> sp1 is Ok && sp2 is Ok && ix.memories@.len() > 0
                    && memarg.flags < 32)
            &&& (r is Ok ==> simple_step(
                    *old(st),
                    *final(st),
                    Instr::Store {
                        memory: ix.memories@[0],
                        arg: (MemArg { align: 1u32 << memarg.flags, offset: memarg.offset }),
                        kind,
                    },
                    loc,
                    sp2->Ok_0.0,
                ))
            &&& (r is Err ==> final(st).arena == old(st).arena)
        }),
        ({
            let stp = g_mem_step(
                *ix,
                abs(*old(st)),
                seq![ValType::I32, spec_store_ty(kind)],
                Seq::empty(),
                memarg.flags,
                GInstr::Plain(
                    Instr::Store { memory: ix.memories@[0], arg: g_mem_arg(memarg), kind },
                ),
                loc,
            );
            &&& (r is Ok <==> stp is Ok)
            &&& (r is Ok ==> abs(*final(st)) == stp->Ok_0)
            &&& (r is Err ==> r->Err_0 == stp->Err_0)
        }),
{
    proof {
        lemma_pop_two(
            old(st).operands@,
            old(st).top().height as int,
            old(st).top().unreachable,
            ValType::I32,
            spec_store_ty(kind),
        );
        assert(g_top(abs(*old(st))) == abs_frame(old(st).top()));
    }
    let t = store_ty(kind);
    match st.pop_expected(Some(t)) {
        Err(k) => {
            return Err(k);
        }
        Ok(_) => {}
    }
    match st.pop_expected(Some(ValType::I32)) {
        Err(k) => {
            return Err(k);
        }
        Ok(_) => {}
    }
    let memory = match ix.get_memory(0) {
        Ok(m) => m,
        Err(k) => {
            return Err(k);
        }
    };
    let arg = match decode_mem_arg(&memarg) {
        Ok(a) => a,
        Err(k) => {
            return Err(k);
        }
    };
    match st.alloc_instr_in(0, Instr::Store { memory, arg, kind }, loc) {
        Ok(_) => {}
        Err(_) => {
            proof {
                assert(false);
            }
        }
    }
    proof {
        lemma_push_none(st.operands@);
        lemma_abs_append_at(
            *old(st),
            *st,
            old(st).top().block as int,
            Instr::Store { memory, arg, kind },
            loc,
        );
    }
    Ok(())
}

/// Pops the operand and the address, appends the atomic
/// read-modify-write, pushes the operand type back.
fn atomicrmw_op(
    st: &mut Validator,
    ix: &Indices,
    memarg: MemImm,
    op: AtomicOp,
    width: AtomicWidth,
    loc: u32,
) -> (r: Result<(), ErrorKind>)
    requires
        old(st).stacks_wf(),
        old(st).controls@.len() >= 1,
    ensures
        final(st).stacks_wf(),
        final(st).arena@.len() >= old(st).arena@.len(),
        final(st).controls == old(st).controls,
        final(st).if_else == old(st).if_else,
        ({
            let h = old(st).top().height as int;
            let u = old(st).top().unreachable;
            let sp1 = spec_pop(old(st).operands@, h, u, Some(spec_atomic_ty(width)));
            let sp2 = spec_pop(sp1->Ok_0.0, h, u, Some(ValType::I32));
            &&& (r is Ok <==> sp1 is Ok && sp2 is Ok && ix.memories@.len() > 0
                    && memarg.flags < 32)
            &&& (r is Ok ==> simple_step(
                    *old(st),
                    *final(st),
                    Instr::AtomicRmw {
                        memory: ix.memories@[0],
                        arg: (MemArg { align: 1u32 << memarg.flags, offset: memarg.offset }),
                        op,
                        width,
                    },
                    loc,
                    sp2->Ok_0.0.push(Some(spec_atomic_ty(width))),
                ))
            &&& (r is Err ==> final(st).arena == old(st).arena)
        }),
        ({
            let stp = g_mem_step(
                *ix,
                abs(*old(st)),
                seq![ValType::I32, spec_atomic_ty(width)],
                seq![spec_atomic_ty(width)],
                memarg.flags,
                GInstr::Plain(
                    Instr::AtomicRmw {
                        memory: ix.memories@[0],
                        arg: g_mem_arg(memarg),
                        op,
                        width,
                    },
                ),
                loc,
            );
            &&& (r is Ok <==> stp is Ok)
            &&& (r is Ok ==> abs(*final(st)) == stp->Ok_0)
            &&& (r is Err ==> r->Err_0 == stp->Err_0)
        }),
{
    proof {
        lemma_pop_two(
            old(st).operands@,
            old(st).top().height as int,
            old(st).top().unreachable,
            ValType::I32,
            spec_atomic_ty(width),
        );
        assert(g_top(abs(*old(st))) == abs_frame(old(st).top()));
    }
    let t = atomic_ty(width);
    match st.pop_expected(Some(t)) {
        Err(k) => {
            return Err(k);
        }
        Ok(_) => {}
    }
    match st.pop_expected(Some(ValType::I32)) {
        Err(k) => {
            return Err(k);
        }
        Ok(_) => {}
    }
    let memory = match ix.get_memory(0) {
        Ok(m) => m,
        Err(k) => {
            return Err(k);
        }
    };
    let arg = match decode_mem_arg(&memarg) {
        Ok(a) => a,
        Err(k) => {
            return Err(k);
        }
    };
    match st.alloc_instr_in(0, Instr::AtomicRmw { memory, arg, op, width }, loc) {
        Ok(_) => {}
        Err(_) => {
            proof {
                assert(false);
            }
        }
    }
    st.push_operand(Some(t));
    proof {
        let h = old(st).top().height as int;
        let u = old(st).top().unreachable;
        let sp1 = spec_pop(old(st).operands@, h, u, Some(spec_atomic_ty(width)));
        let sp2 = spec_pop(sp1->Ok_0.0, h, u, Some(ValType::I32));
        lemma_push_one(sp2->Ok_0.0, spec_atomic_ty(width));
        lemma_abs_append_at(
            *old(st),
            *st,
            old(st).top().block as int,
            Instr::AtomicRmw { memory, arg, op, width },
            loc,
        );
    }
    Ok(())
}

/// Pops the replacement, the comparand and the address, appends the
/// compare-exchange, pushes the operand type back.
fn cmpxchg_op(
    st: &mut Validator,
    ix: &Indices,
    memarg: MemImm,
    width: AtomicWidth,
    loc: u32,
) -> (r: Result<(), ErrorKind>)
    requires
        old(st).stacks_wf(),
        old(st).controls@.len() >= 1,
    ensures
        final(st).stacks_wf(),
        final(st).arena@.len() >= old(st).arena@.len(),
        final(st).controls == old(st).controls,
        final(st).if_else == old(st).if_else,
        ({
            let h = old(st).top().height as int;
            let u = old(st).top().unreachable;
            let sp1 = spec_pop(old(st).operands@, h, u, Some(spec_atomic_ty(width)));
            let sp2 = spec_pop(sp1->Ok_0.0, h, u, Some(spec_atomic_ty(width)));
            let sp3 = spec_pop(sp2->Ok_0.0, h, u, Some(ValType::I32));
            &&& (r is Ok <==> sp1 is Ok && sp2 is Ok && sp3 is Ok && ix.memories@.len() > 0
                    && memarg.flags < 32)
            &&& (r is Ok ==> simple_step(
                    *old(st),
                    *final(st),
                    Instr::Cmpxchg {
                        memory: ix.memories@[0],
                        arg: (MemArg { align: 1u32 << memarg.flags, offset: memarg.offset }),
                        width,
                    },
                    loc,
                    sp3->Ok_0.0.push(Some(spec_atomic_ty(width))),
                ))
            &&& (r is Err ==> final(st).arena == old(st).arena)
        }),
        ({
            let stp = g_mem_step(
                *ix,
                abs(*old(st)),
                seq![ValType::I32, spec_atomic_ty(width), spec_atomic_ty(width)],
                seq![spec_atomic_ty(width)],
                memarg.flags,
                GInstr::Plain(
                    Instr::Cmpxchg { memory: ix.memories@[0], arg: g_mem_arg(memarg), width },
                ),
                loc,
            );
            &&& (r is Ok <==> stp is Ok)
            &&& (r is Ok ==> abs(*final(st)) == stp->Ok_0)
            &&& (r is Err ==> r->Err_0 == stp->Err_0)
        }),
{
    proof {
        lemma_pop_three(
            old(st).operands@,
            old(st).top().height as int,
            old(st).top().unreachable,
            ValType::I32,
            spec_atomic_ty(width),
            spec_atomic_ty(width),
        );
        assert(g_top(abs(*old(st))) == abs_frame(old(st).top()));
    }
    let t = atomic_ty(width);
    match st.pop_expected(Some(t)) {
        Err(k) => {
            return Err(k);
        }
        Ok(_) => {}
    }
    match st.pop_expected(Some(t)) {
        Err(k) => {
            return Err(k);
        }
        Ok(_) => {}
    }
    match st.pop_expected(Some(ValType::I32)) {
        Err(k) => {
            return Err(k);
        }
        Ok(_) => {}
    }
    let memory = match ix.get_memory(0) {
        Ok(m) => m,
        Err(k) => {
            return Err(k);
        }
    };
    let arg = match decode_mem_arg(&memarg) {
        Ok(a) => a,
        Err(k) => {
            return Err(k);
        }
    };
    match st.alloc_instr_in(0, Instr::Cmpxchg { memory, arg, width }, loc) {
        Ok(_) => {}
        Err(_) => {
            proof {
                assert(false);
            }
        }
    }
    st.push_operand(Some(t));
    proof {
        let h = old(st).top().height as int;
        let u = old(st).top().unreachable;
        let sp1 = spec_pop(old(st).operands@, h, u, Some(spec_atomic_ty(width)));
        let sp2 = spec_pop(sp1->Ok_0.0, h, u, Some(spec_atomic_ty(width)));
        let sp3 = spec_pop(sp2->Ok_0.0, h, u, Some(ValType::I32));
        lemma_push_one(sp3->Ok_0.0, spec_atomic_ty(width));
        lemma_abs_append_at(
            *old(st),
            *st,
            old(st).top().block as int,
            Instr::Cmpxchg { memory, arg, width },
            loc,
        );
    }
    Ok(())
}

/// Pops the address, appends the SIMD splatting or extending load,
/// pushes `v128`.
fn load_simd_op(
    st: &mut Validator,
    ix: &Indices,
    memarg: MemImm,
    kind: LoadSimdKind,
    loc: u32,
) -> (r: Result<(), ErrorKind>)
    requires
        old(st).stacks_wf(),
        old(st).controls@.len() >= 1,
    ensures
        final(st).stacks_wf(),
        final(st).arena@.len() >= old(st).arena@.len(),
        final(st).controls == old(st).controls,
        final(st).if_else == old(st).if_else,
        ({
            let h = old(st).top().height as int;
            let u = old(st).top().unreachable;
            let sp = spec_pop(old(st).operands@, h, u, Some(ValType::I32));
            &&& (r is Ok <==> sp is Ok && ix.memories@.len() > 0 && memarg.flags < 32)
            &&& (r is Ok ==> simple_step(
                    *old(st),
                    *final(st),
                    Instr::LoadSimd {
                        memory: ix.memories@[0],
                        arg: (MemArg { align: 1u32 << memarg.flags, offset: memarg.offset }),
                        kind,
                    },
                    loc,
                    sp->Ok_0.0.push(Some(ValType::V128)),
                ))
            &&& (r is Err ==> final(st).arena == old(st).arena)
        }),
        ({
            let stp = g_mem_step(
                *ix,
                abs(*old(st)),
                seq![ValType::I32],
                seq![ValType::V128],
                memarg.flags,
                GInstr::Plain(
                    Instr::LoadSimd { memory: ix.memories@[0], arg: g_mem_arg(memarg), kind },
                ),
                loc,
            );
            &&& (r is Ok <==> stp is Ok)
            &&& (r is Ok ==> abs(*final(st)) == stp->Ok_0)
            &&& (r is Err ==> r->Err_0 == stp->Err_0)
        }),
{
    proof {
        lemma_pop_one(
            old(st).operands@,
            old(st).top().height as int,
            old(st).top().unreachable,
            ValType::I32,
        );
        assert(g_top(abs(*old(st))) == abs_frame(old(st).top()));
    }
    match st.pop_expected(Some(ValType::I32)) {
        Err(k) => {
            return Err(k);
        }
        Ok(_) => {}
    }
    let memory = match ix.get_memory(0) {
        Ok(m) => m,
        Err(k) => {
            return Err(k);
        }
    };
    let arg = match decode_mem_arg(&memarg) {
        Ok(a) => a,
        Err(k) => {
            return Err(k);
        }
    };
    match st.alloc_instr_in(0, Instr::LoadSimd { memory, arg, kind }, loc) {
        Ok(_) => {}
        Err(_) => {
            proof {
                assert(false);
            }
        }
    }
    st.push_operand(Some(ValType::V128));
    proof {
        let sp = spec_pop(
            old(st).operands@,
            old(st).top().height as int,
            old(st).top().unreachable,
            Some(ValType::I32),
        );
        lemma_push_one(sp->Ok_0.0, ValType::V128);
        lemma_abs_append_at(
            *old(st),
            *st,
            old(st).top().block as int,
            Instr::LoadSimd { memory, arg, kind },
            loc,
        );
    }
    Ok(())
}

/// Whether a block type's reference into the type table resolves.
pub open spec fn block_ty_ok(ix: Indices, bt: BlockType) -> bool {
    match bt {
        BlockType::Func(i) => (i as int) < ix.types@.len(),
        _ => true,
    }
}

/// The parameter types a block type denotes.
pub open spec fn spec_block_params(m: ModuleInfo, ix: Indices, bt: BlockType) -> Seq<ValType> {
    match bt {
        BlockType::Func(i) => if (i as int) < ix.types@.len() {
            m.types@[ix.types@[i as int] as int].params@
        } else {
            Seq::empty()
        },
        _ => Seq::empty(),
    }
}

/// The result types a block type denotes.
pub open spec fn spec_block_results(m: ModuleInfo, ix: Indices, bt: BlockType) -> Seq<ValType> {
    match bt {
        BlockType::Empty => Seq::empty(),
        BlockType::Val(t) => seq![t],
        BlockType::Func(i) => if (i as int) < ix.types@.len() {
            m.types@[ix.types@[i as int] as int].results@
        } else {
            Seq::empty()
        },
    }
}

/// Resolves a block type's parameter vector.
pub fn block_param_tys(
    module: &ModuleInfo,
    ix: &Indices,
    bt: BlockType,
) -> (r: Result<Vec<ValType>, ErrorKind>)
    requires
        module.wf(),
        ix.wf(*module),
    ensures
        (r is Ok <==> block_ty_ok(*ix, bt)),
        r is Ok ==> r->Ok_0@ == spec_block_params(*module, *ix, bt),
        r is Err ==> r->Err_0 == ErrorKind::UnknownIndex,
{
    match bt {
        BlockType::Empty => Ok(Vec::new()),
        BlockType::Val(_) => Ok(Vec::new()),
        BlockType::Func(i) => {
            let tid = match ix.get_type(i) {
                Ok(t) => t,
                Err(k) => {
                    return Err(k);
                }
            };
            Ok(copy_types(&module.types[tid].params))
        }
    }
}

/// Resolves a block type's result vector.
pub fn block_result_tys(
    module: &ModuleInfo,
    ix: &Indices,
    bt: BlockType,
) -> (r: Result<Vec<ValType>, ErrorKind>)
    requires
        module.wf(),
        ix.wf(*module),
    ensures
        (r is Ok <==> block_ty_ok(*ix, bt)),
        r is Ok ==> r->Ok_0@ == spec_block_results(*module, *ix, bt),
        r is Err ==> r->Err_0 == ErrorKind::UnknownIndex,
{
    match bt {
        BlockType::Empty => Ok(Vec::new()),
        BlockType::Val(t) => {
            let mut v: Vec<ValType> = Vec::new();
            v.push(t);
            proof {
                assert(v@ =~= seq![t]);
            }
            Ok(v)
        }
        BlockType::Func(i) => {
            let tid = match ix.get_type(i) {
                Ok(t) => t,
                Err(k) => {
                    return Err(k);
                }
            };
            Ok(copy_types(&module.types[tid].results))
        }
    }
}


/// Appends `unreachable` and marks the rest of the frame dead.
fn unreachable_op(st: &mut Validator, loc: u32) -> (r: Result<(), ErrorKind>)
    requires
        old(st).wf(),
        old(st).controls@.len() >= 1,
    ensures
        final(st).wf(),
        final(st).arena@.len() >= old(st).arena@.len(),
        r is Ok,
        total_instrs(final(st).arena@) == total_instrs(old(st).arena@) + 1,
        final(st).if_else == old(st).if_else,
        final(st).controls@.len() == old(st).controls@.len(),
        forall|nl: int|
            arena_locals_ok(old(st).arena@, nl)
                ==> arena_locals_ok(final(st).arena@, nl),
        final(st).operands@ == old(st).operands@.subrange(0, old(st).top().height as int),
        final(st).top().unreachable,
        ({
            let stp = g_unreachable_step(abs(*old(st)), loc);
            &&& stp is Ok
            &&& abs(*final(st)) == stp->Ok_0
        }),
{
    match st.alloc_instr_in(0, Instr::Unreachable, loc) {
        Ok(_) => {}
        Err(_) => {
            proof {
                assert(false);
            }
        }
    }
    let ghost mid = *st;
    proof {
        assert(g_top(abs(*old(st))) == abs_frame(old(st).top()));
        lemma_abs_append_at(
            *old(st),
            mid,
            old(st).top().block as int,
            Instr::Unreachable,
            loc,
        );
        assert(g_with_operands(abs(*old(st)), mid.operands@) == abs(*old(st)));
    }
    st.mark_unreachable();
    proof {
        lemma_abs_mark(mid, *st);
    }
    proof {
        assert forall|i: int| 0 <= i < old(st).controls@.len()
            implies (#[trigger] st.controls@[i]).kind == old(st).controls@[i].kind
                && st.controls@[i].block == old(st).controls@[i].block by {}
        lemma_ifelse_match_same(
            old(st).controls@,
            st.controls@,
            st.if_else@,
            st.arena@.len() as int,
        );
    }
    Ok(())
}

/// Pops the function's result types, appends `return`, marks the frame
/// dead.
fn return_op(
    st: &mut Validator,
    module: &ModuleInfo,
    func_id: usize,
    loc: u32,
) -> (r: Result<(), ErrorKind>)
    requires
        old(st).wf(),
        old(st).controls@.len() >= 1,
        module.wf(),
        func_id < module.funcs@.len(),
    ensures
        r is Err ==> final(st).arena == old(st).arena,
        final(st).wf(),
        final(st).arena@.len() >= old(st).arena@.len(),
        r is Ok ==> total_instrs(final(st).arena@) == total_instrs(old(st).arena@) + 1,
        final(st).if_else == old(st).if_else,
        final(st).controls@.len() == old(st).controls@.len(),
        forall|nl: int|
            arena_locals_ok(old(st).arena@, nl)
                ==> arena_locals_ok(final(st).arena@, nl),
        r is Ok ==> final(st).operands@
            == old(st).operands@.subrange(0, old(st).top().height as int)
            && final(st).top().unreachable
            && spec_pop_many(
                old(st).operands@,
                old(st).top().height as int,
                old(st).top().unreachable,
                module.types@[module.funcs@[func_id as int] as int].results@,
            ) is Ok,
        ({
            let stp = g_return_step(*module, func_id as int, abs(*old(st)), loc);
            &&& (r is Ok <==> stp is Ok)
            &&& (r is Ok ==> abs(*final(st)) == stp->Ok_0)
            &&& (r is Err ==> r->Err_0 == stp->Err_0)
        }),
{
    proof {
        assert(g_top(abs(*old(st))) == abs_frame(old(st).top()));
    }
    let tid = module.funcs[func_id];
    let expected = copy_types(&module.types[tid].results);
    match st.pop_operands(&expected) {
        Err(k) => {
            return Err(k);
        }
        Ok(()) => {}
    }
    proof {
        lemma_pop_many_prefix(
            old(st).operands@,
            old(st).top().height as int,
            old(st).top().unreachable,
            module.types@[module.funcs@[func_id as int] as int].results@,
        );
    }
    match st.alloc_instr_in(0, Instr::Return, loc) {
        Ok(_) => {}
        Err(_) => {
            proof {
                assert(false);
            }
        }
    }
    let ghost mid = *st;
    proof {
        lemma_abs_append_at(
            *old(st),
            mid,
            old(st).top().block as int,
            Instr::Return,
            loc,
        );
    }
    st.mark_unreachable();
    proof {
        lemma_abs_mark(mid, *st);
    }
    proof {
        assert forall|i: int| 0 <= i < old(st).controls@.len()
            implies (#[trigger] st.controls@[i]).kind == old(st).controls@[i].kind
                && st.controls@[i].block == old(st).controls@[i].block by {}
        lemma_ifelse_match_same(
            old(st).controls@,
            st.controls@,
            st.if_else@,
            st.arena@.len() as int,
        );
    }
    Ok(())
}

/// Opens a `block`: resolves the annotation, pops the
/// parameters, pushes the frame, appends the structured node to the
/// parent sequence.
fn block_op(
    st: &mut Validator,
    module: &ModuleInfo,
    ix: &Indices,
    bt: BlockType,
    loc: u32,
) -> (r: Result<(), ErrorKind>)
    requires
        old(st).wf(),
        old(st).controls@.len() >= 1,
        module.wf(),
        ix.wf(*module),
    ensures
        r is Err ==> final(st).arena == old(st).arena,
        final(st).wf(),
        final(st).arena@.len() >= old(st).arena@.len(),
        r is Ok ==> total_instrs(final(st).arena@) == total_instrs(old(st).arena@) + 1,
        final(st).if_else == old(st).if_else,
        r is Ok ==> final(st).controls@.len() == old(st).controls@.len() + 1,
        r is Err ==> final(st).controls@.len() == old(st).controls@.len()
            && total_instrs(final(st).arena@) == total_instrs(old(st).arena@),
        forall|nl: int|
            arena_locals_ok(old(st).arena@, nl)
                ==> arena_locals_ok(final(st).arena@, nl),
        ({
            let stp = g_block_step(*module, *ix, abs(*old(st)), bt, loc);
            &&& (r is Ok <==> stp is Ok)
            &&& (r is Ok ==> abs(*final(st)) == stp->Ok_0)
            &&& (r is Err ==> r->Err_0 == stp->Err_0)
        }),
{
    proof {
        assert(g_top(abs(*old(st))) == abs_frame(old(st).top()));
    }
    let param_tys = match block_param_tys(module, ix, bt) {
        Ok(v) => v,
        Err(k) => {
            return Err(k);
        }
    };
    let result_tys = match block_result_tys(module, ix, bt) {
        Ok(v) => v,
        Err(k) => {
            return Err(k);
        }
    };
    match st.pop_operands(&param_tys) {
        Err(k) => {
            return Err(k);
        }
        Ok(()) => {}
    }
    let ghost st2 = st.operands@;
    let seq_id = st.push_control(BlockKind::Block, bt, param_tys, result_tys);
    proof {
        lemma_ifelse_match_grow(
            old(st).controls@,
            old(st).if_else@,
            old(st).arena@.len() as int,
            st.arena@.len() as int,
        );
        assert(st.controls@.drop_last() =~= old(st).controls@);
        assert(ifelse_match(st.controls@, st.if_else@, st.arena@.len() as int));
    }
    let ghost mid = *st;
    proof {
        assert(abs(mid) =~~= g_open(
            abs(*old(st)),
            BlockKind::Block,
            bt,
            spec_block_params(*module, *ix, bt),
            spec_block_results(*module, *ix, bt),
            st2,
        ));
    }
    match st.alloc_instr_in(1, Instr::Block(seq_id), loc) {
        Ok(_) => {}
        Err(_) => {
            proof {
                assert(false);
            }
        }
    }
    proof {
        lemma_abs_append_at(
            mid,
            *st,
            old(st).top().block as int,
            Instr::Block(seq_id),
            loc,
        );
        assert(g_with_operands(abs(mid), st.operands@) == abs(mid));
    }
    Ok(())
}

/// Opens a `loop`: resolves the annotation, pops the
/// parameters, pushes the frame, appends the structured node to the
/// parent sequence.
fn loop_op(
    st: &mut Validator,
    module: &ModuleInfo,
    ix: &Indices,
    bt: BlockType,
    loc: u32,
) -> (r: Result<(), ErrorKind>)
    requires
        old(st).wf(),
        old(st).controls@.len() >= 1,
        module.wf(),
        ix.wf(*module),
    ensures
        r is Err ==> final(st).arena == old(st).arena,
        final(st).wf(),
        final(st).arena@.len() >= old(st).arena@.len(),
        r is Ok ==> total_instrs(final(st).arena@) == total_instrs(old(st).arena@) + 1,
        final(st).if_else == old(st).if_else,
        r is Ok ==> final(st).controls@.len() == old(st).controls@.len() + 1,
        r is Err ==> final(st).controls@.len() == old(st).controls@.len()
            && total_instrs(final(st).arena@) == total_instrs(old(st).arena@),
        forall|nl: int|
            arena_locals_ok(old(st).arena@, nl)
                ==> arena_locals_ok(final(st).arena@, nl),
        ({
            let stp = g_loop_step(*module, *ix, abs(*old(st)), bt, loc);
            &&& (r is Ok <==> stp is Ok)
            &&& (r is Ok ==> abs(*final(st)) == stp->Ok_0)
            &&& (r is Err ==> r->Err_0 == stp->Err_0)
        }),
{
    proof {
        assert(g_top(abs(*old(st))) == abs_frame(old(st).top()));
    }
    let result_tys = match block_result_tys(module, ix, bt) {
        Ok(v) => v,
        Err(k) => {
            return Err(k);
        }
    };
    let param_tys = match block_param_tys(module, ix, bt) {
        Ok(v) => v,
        Err(k) => {
            return Err(k);
        }
    };
    match st.pop_operands(&param_tys) {
        Err(k) => {
            return Err(k);
        }
        Ok(()) => {}
    }
    let ghost st2 = st.operands@;
    let seq_id = st.push_control(BlockKind::Loop, bt, param_tys, result_tys);
    proof {
        lemma_ifelse_match_grow(
            old(st).controls@,
            old(st).if_else@,
            old(st).arena@.len() as int,
            st.arena@.len() as int,
        );
        assert(st.controls@.drop_last() =~= old(st).controls@);
        assert(ifelse_match(st.controls@, st.if_else@, st.arena@.len() as int));
    }
    let ghost mid = *st;
    proof {
        assert(abs(mid) =~~= g_open(
            abs(*old(st)),
            BlockKind::Loop,
            bt,
            spec_block_params(*module, *ix, bt),
            spec_block_results(*module, *ix, bt),
            st2,
        ));
    }
    match st.alloc_instr_in(1, Instr::Loop(seq_id), loc) {
        Ok(_) => {}
        Err(_) => {
            proof {
                assert(false);
            }
        }
    }
    proof {
        lemma_abs_append_at(
            mid,
            *st,
            old(st).top().block as int,
            Instr::Loop(seq_id),
            loc,
        );
        assert(g_with_operands(abs(mid), st.operands@) == abs(mid));
    }
    Ok(())
}

/// Opens an `if`: pops the condition and parameters, pushes the
/// consequent's frame, and stages the pending node.
fn if_op(
    st: &mut Validator,
    module: &ModuleInfo,
    ix: &Indices,
    bt: BlockType,
    loc: u32,
) -> (r: Result<(), ErrorKind>)
    requires
        old(st).wf(),
        old(st).controls@.len() >= 1,
        module.wf(),
        ix.wf(*module),
    ensures
        r is Err ==> final(st).arena == old(st).arena,
        final(st).wf(),
        final(st).arena@.len() >= old(st).arena@.len(),
        r is Ok ==> total_instrs(final(st).arena@) == total_instrs(old(st).arena@)
            && final(st).if_else@.len() == old(st).if_else@.len() + 1,
        r is Ok ==> final(st).controls@.len() == old(st).controls@.len() + 1,
        r is Err ==> final(st).controls@.len() == old(st).controls@.len()
            && final(st).if_else == old(st).if_else
            && total_instrs(final(st).arena@) == total_instrs(old(st).arena@),
        forall|nl: int|
            arena_locals_ok(old(st).arena@, nl)
                ==> arena_locals_ok(final(st).arena@, nl),
        ({
            let stp = g_if_step(*module, *ix, abs(*old(st)), bt, loc);
            &&& (r is Ok <==> stp is Ok)
            &&& (r is Ok ==> abs(*final(st)) == stp->Ok_0)
            &&& (r is Err ==> r->Err_0 == stp->Err_0)
        }),
{
    proof {
        assert(g_top(abs(*old(st))) == abs_frame(old(st).top()));
    }
    let result_tys = match block_result_tys(module, ix, bt) {
        Ok(v) => v,
        Err(k) => {
            return Err(k);
        }
    };
    let param_tys = match block_param_tys(module, ix, bt) {
        Ok(v) => v,
        Err(k) => {
            return Err(k);
        }
    };
    match st.pop_expected(Some(ValType::I32)) {
        Err(k) => {
            return Err(k);
        }
        Ok(_) => {}
    }
    match st.pop_operands(&param_tys) {
        Err(k) => {
            return Err(k);
        }
        Ok(()) => {}
    }
    let ghost st2 = st.operands@;
    let consequent = st.push_control(BlockKind::If, bt, param_tys, result_tys);
    let ghost mid = *st;
    proof {
        assert(abs(mid) =~~= g_open(
            abs(*old(st)),
            BlockKind::If,
            bt,
            spec_block_params(*module, *ix, bt),
            spec_block_results(*module, *ix, bt),
            st2,
        ));
    }
    stage_if_entry(st, consequent);
    proof {
        assert(abs(*st) =~~= GState {
            operands: abs(mid).operands,
            controls: abs(mid).controls,
            if_else: abs(mid).if_else.push(
                IfElseState { consequent, alternative: None },
            ),
            arena: abs(mid).arena,
        });
        lemma_ifelse_match_grow(
            old(st).controls@,
            old(st).if_else@,
            old(st).arena@.len() as int,
            st.arena@.len() as int,
        );
        assert(st.controls@.drop_last() =~= old(st).controls@);
        assert(st.if_else@.drop_last() =~= old(st).if_else@);
        assert(ifelse_match(st.controls@, st.if_else@, st.arena@.len() as int));
    }
    Ok(())
}

/// Handles `else`: closes the consequent (which must belong to an `if`),
/// opens the alternative with the same signature, and records it on the
/// staged entry.
fn else_op(st: &mut Validator, loc: u32) -> (r: Result<(), ErrorKind>)
    requires
        old(st).wf(),
        old(st).controls@.len() >= 1,
    ensures
        r is Err ==> final(st).arena == old(st).arena,
        final(st).stacks_wf(),
        final(st).arena@.len() >= old(st).arena@.len(),
        r is Ok ==> final(st).wf(),
        r is Ok ==> total_instrs(final(st).arena@) == total_instrs(old(st).arena@)
            && final(st).if_else@.len() == old(st).if_else@.len(),
        r is Ok ==> final(st).controls@.len() == old(st).controls@.len(),
        r is Err ==> final(st).if_else == old(st).if_else
            && total_instrs(final(st).arena@) == total_instrs(old(st).arena@),
        forall|nl: int|
            arena_locals_ok(old(st).arena@, nl)
                ==> arena_locals_ok(final(st).arena@, nl),
        r is Ok ==> old(st).top().kind == BlockKind::If
            && final(st).top().kind == BlockKind::Else,
        (r is Err && r->Err_0 == ErrorKind::StrayElse) ==> ({
            let f = old(st).top();
            let pm = spec_pop_many(
                old(st).operands@,
                f.height as int,
                f.unreachable,
                f.end_types@,
            );
            pm is Ok && pm->Ok_0.len() == f.height && f.kind != BlockKind::If
        }),
        ({
            let stp = g_else_step(abs(*old(st)), loc);
            &&& (r is Ok <==> stp is Ok)
            &&& (r is Ok ==> abs(*final(st)) == stp->Ok_0)
            &&& (r is Err ==> r->Err_0 == stp->Err_0)
        }),
{
    proof {
        assert(g_top(abs(*old(st))) == abs_frame(old(st).top()));
    }
    let ghost c0 = old(st).controls@;
    let ghost e0 = old(st).if_else@;
    let ghost a0 = old(st).arena@.len() as int;
    let f = match st.pop_control() {
        Ok(f) => f,
        Err(k) => {
            proof {
                let f0 = old(st).top();
                if spec_pop_many(
                    old(st).operands@,
                    f0.height as int,
                    f0.unreachable,
                    f0.end_types@,
                ) is Err {
                    lemma_pop_many_err_kinds(
                        old(st).operands@,
                        f0.height as int,
                        f0.unreachable,
                        f0.end_types@,
                    );
                }
            }
            return Err(k);
        }
    };
    match f.kind {
        BlockKind::If => {}
        _ => {
            return Err(ErrorKind::StrayElse);
        }
    }
    proof {
        assert(e0.len() >= 1 && e0.last().consequent == c0.last().block
            && e0.last().alternative is None
            && ifelse_match(c0.drop_last(), e0.drop_last(), a0));
    }
    let ghost s1 = abs(*st);
    proof {
        assert(s1 =~~= g_pop_control(abs(*old(st)))->Ok_0.1);
    }
    let bt = st.arena[f.block].ty;
    let alternative = st.push_control(BlockKind::Else, bt, f.start_types, f.end_types);
    let ghost mid = *st;
    proof {
        assert(abs(mid) =~~= g_open(
            s1,
            BlockKind::Else,
            bt,
            old(st).top().start_types@,
            old(st).top().end_types@,
            s1.operands,
        ));
    }
    let entry = st.if_else.pop().unwrap();
    if entry.alternative.is_some() {
        proof {
            assert(false);
        }
        return Err(ErrorKind::StrayElse);
    }
    st.if_else.push(IfElseState {
        consequent: entry.consequent,
        alternative: Some(alternative),
    });
    proof {
        assert(st.if_else@ =~= mid.if_else@.update(
            mid.if_else@.len() - 1,
            IfElseState { consequent: entry.consequent, alternative: Some(alternative) },
        ));
        assert(abs(*st) =~~= GState {
            operands: abs(mid).operands,
            controls: abs(mid).controls,
            if_else: abs(mid).if_else.update(
                abs(mid).if_else.len() - 1,
                IfElseState { consequent: entry.consequent, alternative: Some(alternative) },
            ),
            arena: abs(mid).arena,
        });
        lemma_ifelse_match_grow(c0.drop_last(), e0.drop_last(), a0, st.arena@.len() as int);
        assert(st.controls@.drop_last() =~= c0.drop_last());
        assert(st.if_else@.drop_last() =~= e0.drop_last());
        assert(ifelse_match(st.controls@, st.if_else@, st.arena@.len() as int));
    }
    Ok(())
}

/// Handles `end`: closes the top frame, synthesises the `if`/`else`
/// node when one was staged, and pushes the frame's results back.
fn end_op(st: &mut Validator, loc: u32) -> (r: Result<(), ErrorKind>)
    requires
        old(st).wf(),
        old(st).controls@.len() >= 1,
    ensures
        r is Err ==> final(st).arena == old(st).arena,
        final(st).stacks_wf(),
        final(st).arena@.len() >= old(st).arena@.len(),
        r is Ok ==> final(st).wf(),
        r is Ok ==> total_instrs(final(st).arena@) + final(st).if_else@.len()
            == total_instrs(old(st).arena@) + old(st).if_else@.len(),
        r is Ok ==> final(st).controls@.len() == old(st).controls@.len() - 1,
        forall|nl: int|
            arena_locals_ok(old(st).arena@, nl)
                ==> arena_locals_ok(final(st).arena@, nl),
        r is Ok ==> final(st).operands@ == push_tys(
            old(st).operands@.subrange(0, old(st).top().height as int),
            old(st).top().end_types@,
        ),
        ({
            let stp = g_end_step(abs(*old(st)), loc);
            &&& (r is Ok <==> stp is Ok)
            &&& (r is Ok ==> abs(*final(st)) == stp->Ok_0)
            &&& (r is Err ==> r->Err_0 == stp->Err_0)
        }),
{
    proof {
        assert(g_top(abs(*old(st))) == abs_frame(old(st).top()));
    }
    let ghost c0 = old(st).controls@;
    let ghost e0 = old(st).if_else@;
    let ghost a0 = old(st).arena@.len() as int;
    let f = match st.pop_control() {
        Ok(f) => f,
        Err(k) => {
            return Err(k);
        }
    };
    let ghost s1 = abs(*st);
    proof {
        assert(s1 =~~= g_pop_control(abs(*old(st)))->Ok_0.1);
    }
    let is_ifelse = match f.kind {
        BlockKind::If | BlockKind::Else => true,
        _ => false,
    };
    if is_ifelse {
        proof {
            assert(e0.len() >= 1 && ifelse_match(c0.drop_last(), e0.drop_last(), a0));
        }
        let entry = st.if_else.pop().unwrap();
        let ghost s2 = abs(*st);
        proof {
            assert(s2 =~~= GState {
                operands: s1.operands,
                controls: s1.controls,
                if_else: s1.if_else.drop_last(),
                arena: s1.arena,
            });
        }
        let alternative: usize;
        match entry.alternative {
            Some(alt) => {
                alternative = alt;
            }
            None => {
                let bt = st.arena[f.block].ty;
                alternative = st.alloc_empty_seq(bt);
                proof {
                    assert(abs(*st) =~~= GState {
                        operands: s2.operands,
                        controls: s2.controls,
                        if_else: s2.if_else,
                        arena: s2.arena.push(
                            crate::step::GSeq {
                                ty: abs(*old(st)).arena[old(st).top().block as int].ty,
                                instrs: Seq::empty(),
                            },
                        ),
                    });
                }
            }
        }
        let ghost s3 = abs(*st);
        proof {
            assert(g_top(s3) == abs_frame(st.controls@.last()));
        }
        let ghost mid = *st;
        match st.alloc_instr_in(
            0,
            Instr::IfElse { consequent: entry.consequent, alternative },
            loc,
        ) {
            Ok(_) => {}
            Err(_) => {
                proof {
                    assert(false);
                }
            }
        }
        proof {
            lemma_abs_append_at(
                mid,
                *st,
                mid.controls@.last().block as int,
                Instr::IfElse { consequent: entry.consequent, alternative },
                loc,
            );
            assert(g_with_operands(s3, st.operands@) == s3);
            lemma_ifelse_match_grow(
                c0.drop_last(),
                e0.drop_last(),
                a0,
                st.arena@.len() as int,
            );
            assert(st.controls@ =~= c0.drop_last());
            assert(st.if_else@ =~= e0.drop_last());
            assert(ifelse_match(st.controls@, st.if_else@, st.arena@.len() as int));
            assert(st.operands@ =~= old(st).operands@.subrange(
                0,
                old(st).top().height as int,
            ));
        }
    } else {
        proof {
            assert(ifelse_match(c0.drop_last(), e0, a0));
        }
    }
    let ghost pre = abs(*st);
    st.push_operands(&f.end_types);
    proof {
        assert(abs(*st) =~~= g_with_operands(pre, push_tys(pre.operands, old(st).top().end_types@)));
    }
    Ok(())
}

/// Handles `br`: pops the target's label types, appends the branch,
/// marks the frame dead.
fn br_op(st: &mut Validator, depth: u32, loc: u32) -> (r: Result<(), ErrorKind>)
    requires
        old(st).wf(),
        old(st).controls@.len() >= 1,
    ensures
        r is Err ==> final(st).arena == old(st).arena,
        final(st).wf(),
        final(st).arena@.len() >= old(st).arena@.len(),
        r is Ok ==> total_instrs(final(st).arena@) == total_instrs(old(st).arena@) + 1,
        final(st).if_else == old(st).if_else,
        final(st).controls@.len() == old(st).controls@.len(),
        forall|nl: int|
            arena_locals_ok(old(st).arena@, nl)
                ==> arena_locals_ok(final(st).arena@, nl),
        (r is Ok <==> (depth as int) < old(st).controls@.len()
            && spec_pop_many(
                old(st).operands@,
                old(st).top().height as int,
                old(st).top().unreachable,
                frame_at(*old(st), depth as int).spec_label_types(),
            ) is Ok),
        r is Ok ==> final(st).operands@
                == old(st).operands@.subrange(0, old(st).top().height as int)
            && final(st).top().unreachable
            && final(st).arena@[old(st).top().block as int].instrs@
                == old(st).arena@[old(st).top().block as int].instrs@.push(
                (Instr::Br(frame_at(*old(st), depth as int).block), loc),
            ),
        ({
            let stp = g_br_step(abs(*old(st)), depth, loc);
            &&& (r is Ok <==> stp is Ok)
            &&& (r is Ok ==> abs(*final(st)) == stp->Ok_0)
            &&& (r is Err ==> r->Err_0 == stp->Err_0)
        }),
{
    proof {
        assert(g_top(abs(*old(st))) == abs_frame(old(st).top()));
        if (depth as int) < old(st).controls@.len() {
            assert(abs(*old(st)).controls[old(st).controls@.len() - 1 - depth as int]
                == abs_frame(frame_at(*old(st), depth as int)));
        }
    }
    let n = depth as usize;
    let expected = match st.label_types_of(n) {
        Ok(v) => v,
        Err(k) => {
            return Err(k);
        }
    };
    let info = match st.frame_info(n) {
        Ok(p) => p,
        Err(k) => {
            proof {
                assert(false);
            }
            return Err(k);
        }
    };
    match st.pop_operands(&expected) {
        Err(k) => {
            return Err(k);
        }
        Ok(()) => {}
    }
    proof {
        lemma_pop_many_prefix(
            old(st).operands@,
            old(st).top().height as int,
            old(st).top().unreachable,
            frame_at(*old(st), depth as int).spec_label_types(),
        );
    }
    match st.alloc_instr_in(0, Instr::Br(info.0), loc) {
        Ok(_) => {}
        Err(_) => {
            proof {
                assert(false);
            }
        }
    }
    let ghost mid = *st;
    proof {
        lemma_abs_append_at(
            *old(st),
            mid,
            old(st).top().block as int,
            Instr::Br(info.0),
            loc,
        );
    }
    st.mark_unreachable();
    proof {
        lemma_abs_mark(mid, *st);
    }
    proof {
        assert forall|i: int| 0 <= i < old(st).controls@.len()
            implies (#[trigger] st.controls@[i]).kind == old(st).controls@[i].kind
                && st.controls@[i].block == old(st).controls@[i].block by {}
        lemma_ifelse_match_same(
            old(st).controls@,
            st.controls@,
            st.if_else@,
            st.arena@.len() as int,
        );
    }
    Ok(())
}

/// Handles `br_if`: pops the condition, checks the label types are
/// present, and leaves them on the stack for the fall-through.
fn br_if_op(st: &mut Validator, depth: u32, loc: u32) -> (r: Result<(), ErrorKind>)
    requires
        old(st).wf(),
        old(st).controls@.len() >= 1,
    ensures
        r is Err ==> final(st).arena == old(st).arena,
        final(st).wf(),
        final(st).arena@.len() >= old(st).arena@.len(),
        r is Ok ==> total_instrs(final(st).arena@) == total_instrs(old(st).arena@) + 1,
        final(st).if_else == old(st).if_else,
        final(st).controls@.len() == old(st).controls@.len(),
        forall|nl: int|
            arena_locals_ok(old(st).arena@, nl)
                ==> arena_locals_ok(final(st).arena@, nl),
        ({
            let h = old(st).top().height as int;
            let u = old(st).top().unreachable;
            let sp1 = spec_pop(old(st).operands@, h, u, Some(ValType::I32));
            let lts = frame_at(*old(st), depth as int).spec_label_types();
            &&& (r is Ok <==> sp1 is Ok && (depth as int) < old(st).controls@.len()
                    && spec_pop_many(sp1->Ok_0.0, h, u, lts) is Ok)
            &&& (r is Ok ==> final(st).operands@
                    == push_tys(spec_pop_many(sp1->Ok_0.0, h, u, lts)->Ok_0, lts)
                && final(st).arena@[old(st).top().block as int].instrs@
                    == old(st).arena@[old(st).top().block as int].instrs@.push(
                    (Instr::BrIf(frame_at(*old(st), depth as int).block), loc),
                ))
        }),
        ({
            let stp = g_br_if_step(abs(*old(st)), depth, loc);
            &&& (r is Ok <==> stp is Ok)
            &&& (r is Ok ==> abs(*final(st)) == stp->Ok_0)
            &&& (r is Err ==> r->Err_0 == stp->Err_0)
        }),
{
    proof {
        assert(g_top(abs(*old(st))) == abs_frame(old(st).top()));
        if (depth as int) < old(st).controls@.len() {
            assert(abs(*old(st)).controls[old(st).controls@.len() - 1 - depth as int]
                == abs_frame(frame_at(*old(st), depth as int)));
        }
    }
    let n = depth as usize;
    match st.pop_expected(Some(ValType::I32)) {
        Err(k) => {
            return Err(k);
        }
        Ok(_) => {}
    }
    let expected = match st.label_types_of(n) {
        Ok(v) => v,
        Err(k) => {
            return Err(k);
        }
    };
    let info = match st.frame_info(n) {
        Ok(p) => p,
        Err(k) => {
            proof {
                assert(false);
            }
            return Err(k);
        }
    };
    match st.pop_operands(&expected) {
        Err(k) => {
            return Err(k);
        }
        Ok(()) => {}
    }
    let ghost mid = *st;
    match st.alloc_instr_in(0, Instr::BrIf(info.0), loc) {
        Ok(_) => {}
        Err(_) => {
            proof {
                assert(false);
            }
        }
    }
    proof {
        lemma_abs_append_at(
            mid,
            *st,
            old(st).top().block as int,
            Instr::BrIf(info.0),
            loc,
        );
    }
    let ghost pre = abs(*st);
    st.push_operands(&expected);
    proof {
        assert(abs(*st) =~~= g_with_operands(
            pre,
            push_tys(pre.operands, frame_at(*old(st), depth as int).spec_label_types()),
        ));
    }
    Ok(())
}

/// Handles `br_table`: all labels must share the default's label arity,
/// and every reachable label its exact types; pops the selector and the
/// label types, marks the frame dead.
#[verifier::loop_isolation(false)]
#[verifier::rlimit(100)]
#[verifier::spinoff_prover]
fn br_table_op(st: &mut Validator, t: &BrTableData, loc: u32) -> (r: Result<(), ErrorKind>)
    requires
        old(st).wf(),
        old(st).controls@.len() >= 1,
    ensures
        r is Err ==> final(st).arena == old(st).arena,
        final(st).wf(),
        final(st).arena@.len() >= old(st).arena@.len(),
        r is Ok ==> total_instrs(final(st).arena@) == total_instrs(old(st).arena@) + 1,
        final(st).if_else == old(st).if_else,
        final(st).controls@.len() == old(st).controls@.len(),
        forall|nl: int|
            arena_locals_ok(old(st).arena@, nl)
                ==> arena_locals_ok(final(st).arena@, nl),
        r is Ok ==> ({
            let dn = t.default as int;
            let lts = frame_at(*old(st), dn).spec_label_types();
            &&& dn < old(st).controls@.len()
            &&& forall|i: int| 0 <= i < t.labels@.len()
                    ==> (t.labels@[i] as int) < old(st).controls@.len()
            &&& forall|i: int| 0 <= i < t.labels@.len()
                    ==> (#[trigger] frame_at(*old(st), t.labels@[i] as int))
                        .spec_label_types().len() == lts.len()
            &&& forall|i: int| 0 <= i < t.labels@.len()
                    && !(#[trigger] frame_at(*old(st), t.labels@[i] as int)).unreachable
                    ==> frame_at(*old(st), t.labels@[i] as int).spec_label_types() == lts
            &&& final(st).operands@
                == old(st).operands@.subrange(0, old(st).top().height as int)
            &&& final(st).top().unreachable
        }),
        ({
            let stp = g_br_table_step(abs(*old(st)), t.labels@, t.default, loc);
            &&& (r is Ok <==> stp is Ok)
            &&& (r is Ok ==> abs(*final(st)) == stp->Ok_0)
            &&& (r is Err ==> r->Err_0 == stp->Err_0)
        }),
{
    proof {
        assert(g_top(abs(*old(st))) == abs_frame(old(st).top()));
        assert forall|j: int| 0 <= j < old(st).controls@.len()
            implies abs(*old(st)).controls[old(st).controls@.len() - 1 - j]
                == abs_frame(#[trigger] frame_at(*old(st), j)) by {}
    }
    let ghost s0 = abs(*old(st));
    let dn = t.default as usize;
    let types = match st.label_types_of(dn) {
        Ok(v) => v,
        Err(k) => {
            return Err(k);
        }
    };
    let ghost types0 = types@;
    let dinfo = match st.frame_info(dn) {
        Ok(p) => p,
        Err(k) => {
            proof {
                assert(false);
            }
            return Err(k);
        }
    };
    let mut blocks: Vec<usize> = Vec::new();
    let mut i: usize = 0;
    proof {
        assert(t.labels@.skip(0) =~= t.labels@);
        if g_br_table_labels(s0, t.labels@, types0) is Ok {
            let rest = g_br_table_labels(s0, t.labels@, types0)->Ok_0;
            assert(Seq::<usize>::empty() + rest =~= rest);
        }
        assert(blocks@ =~= Seq::<usize>::empty());
    }
    while i < t.labels.len()
        invariant
            i <= t.labels@.len(),
            blocks@.len() == i,
            *st == *old(st),
            forall|j: int| 0 <= j < i ==> (t.labels@[j] as int) < st.controls@.len(),
            forall|j: int| 0 <= j < i
                ==> blocks@[j] == (#[trigger] frame_at(*st, t.labels@[j] as int)).block,
            forall|j: int| 0 <= j < i
                ==> (#[trigger] frame_at(*st, t.labels@[j] as int)).spec_label_types().len()
                    == types@.len(),
            forall|j: int| 0 <= j < i
                    && !(#[trigger] frame_at(*st, t.labels@[j] as int)).unreachable
                ==> frame_at(*st, t.labels@[j] as int).spec_label_types() == types@,
            g_br_table_labels(s0, t.labels@, types0) == (
            match g_br_table_labels(s0, t.labels@.skip(i as int), types0) {
                Ok(rest) => Ok::<Seq<usize>, ErrorKind>(blocks@ + rest),
                Err(k) => Err::<Seq<usize>, ErrorKind>(k),
            }),
        decreases t.labels@.len() - i,
    {
        proof {
            assert(t.labels@.skip(i as int)[0] == t.labels@[i as int]);
            assert(t.labels@.skip(i as int).drop_first() =~= t.labels@.skip(i as int + 1));
        }
        let l = t.labels[i] as usize;
        let lt = match st.label_types_of(l) {
            Ok(v) => v,
            Err(k) => {
                return Err(k);
            }
        };
        let linfo = match st.frame_info(l) {
            Ok(p) => p,
            Err(k) => {
                proof {
                    assert(false);
                }
                return Err(k);
            }
        };
        let ghost bpre = blocks@;
        blocks.push(linfo.0);
        if lt.len() != types.len() {
            return Err(ErrorKind::TypeMismatch);
        }
        if !linfo.1 {
            if !types_eq(&lt, &types) {
                return Err(ErrorKind::TypeMismatch);
            }
        }
        i += 1;
        proof {
            let fr = s0.controls[s0.controls.len() - 1 - (l as int)];
            assert(fr == abs_frame(frame_at(*st, l as int)));
            assert(fr.label_types() == lt@);
            if g_br_table_labels(s0, t.labels@.skip(i as int), types0) is Ok {
                let rest = g_br_table_labels(s0, t.labels@.skip(i as int), types0)->Ok_0;
                assert(blocks@ + rest =~= bpre + (seq![fr.block as usize] + rest));
            }
        }
    }
    proof {
        assert(t.labels@.skip(t.labels@.len() as int) =~= Seq::<u32>::empty());
        assert(blocks@ + Seq::<usize>::empty() =~= blocks@);
        assert(g_br_table_labels(s0, t.labels@, types0) == Ok::<Seq<usize>, ErrorKind>(blocks@));
    }
    match st.pop_expected(Some(ValType::I32)) {
        Err(k) => {
            return Err(k);
        }
        Ok(_) => {}
    }
    match st.pop_operands(&types) {
        Err(k) => {
            return Err(k);
        }
        Ok(()) => {}
    }
    proof {
        let f0 = old(st).top();
        let h = f0.height as int;
        let sp1 = spec_pop(old(st).operands@, h, f0.unreachable, Some(ValType::I32));
        lemma_pop_many_prefix(sp1->Ok_0.0, h, f0.unreachable, types@);
        if old(st).operands@.len() > h {
            assert(sp1->Ok_0.0 =~= old(st).operands@.subrange(
                0,
                old(st).operands@.len() - 1,
            ));
        }
        assert(st.operands@.subrange(0, h) =~= old(st).operands@.subrange(0, h));
    }
    let ghost bfin = blocks@;
    let ghost mid = *st;
    let instr = Instr::BrTable { blocks, default: dinfo.0 };
    let ghost gi = instr;
    match st.alloc_instr_in(0, instr, loc) {
        Ok(_) => {}
        Err(_) => {
            proof {
                assert(false);
            }
        }
    }
    let ghost mid2 = *st;
    proof {
        lemma_abs_append_at(
            mid,
            mid2,
            old(st).top().block as int,
            gi,
            loc,
        );
        assert(abs_instr(gi) == (GInstr::Table { blocks: bfin, default: dinfo.0 as usize }));
    }
    st.mark_unreachable();
    proof {
        lemma_abs_mark(mid2, *st);
        assert forall|i2: int| 0 <= i2 < old(st).controls@.len()
            implies (#[trigger] st.controls@[i2]).kind == old(st).controls@[i2].kind
                && st.controls@[i2].block == old(st).controls@[i2].block by {}
        lemma_ifelse_match_same(
            old(st).controls@,
            st.controls@,
            st.if_else@,
            st.arena@.len() as int,
        );
    }
    Ok(())
}


/// The value-shuffling operators a dedicated family handler accepts.
pub open spec fn is_parametric_op(op: Operator) -> bool {
    match op {
        Operator::Drop | Operator::Select | Operator::TypedSelect(_) | Operator::Const(_)
            => true,
        _ => false,
    }
}

/// The 128-bit vector operators a dedicated family handler accepts.
pub open spec fn is_vector_op(op: Operator) -> bool {
    match op {
        Operator::V128Const(_) | Operator::V128Bitselect | Operator::V128Swizzle
        | Operator::V128Shuffle { .. } => true,
        _ => false,
    }
}

/// The call and variable-access operators a dedicated family handler
/// accepts.
pub open spec fn is_call_var_op(op: Operator) -> bool {
    match op {
        Operator::Call(_) | Operator::CallIndirect { .. } | Operator::LocalGet(_)
        | Operator::LocalSet(_) | Operator::LocalTee(_) | Operator::GlobalGet(_)
        | Operator::GlobalSet(_) => true,
        _ => false,
    }
}

/// The whole-memory and wait/notify operators a dedicated family handler
/// accepts.
/// The bulk-memory operators a dedicated family handler accepts.
pub open spec fn is_memory_bulk_op(op: Operator) -> bool {
    match op {
        Operator::MemoryInit { .. } | Operator::MemoryCopy | Operator::MemoryFill => true,
        _ => false,
    }
}

pub open spec fn is_memory_misc_op(op: Operator) -> bool {
    match op {
        Operator::MemorySize { .. } | Operator::MemoryGrow { .. } | Operator::DataDrop { .. }
            => true,
        _ => false,
    }
}

/// The fence and wait/notify operators a dedicated family handler
/// accepts.
pub open spec fn is_sync_op(op: Operator) -> bool {
    match op {
        Operator::AtomicFence { .. } | Operator::AtomicNotify { .. }
        | Operator::AtomicWait { .. } => true,
        _ => false,
    }
}

/// The table and reference operators a dedicated family handler accepts.
pub open spec fn is_table_ref_op(op: Operator) -> bool {
    match op {
        Operator::TableGet(_) | Operator::TableSet(_) | Operator::TableGrow(_)
        | Operator::TableSize(_) | Operator::TableFill(_) => true,
        _ => false,
    }
}

/// The reference and segment operators a dedicated family handler
/// accepts.
pub open spec fn is_ref_seg_op(op: Operator) -> bool {
    match op {
        Operator::RefNull(_) | Operator::RefIsNull(_) | Operator::RefFunc(_)
        | Operator::TableCopy { .. } | Operator::TableInit { .. } | Operator::ElemDrop { .. }
            => true,
        _ => false,
    }
}

/// Handles the parametric value operators.
#[verifier::rlimit(100)]
#[verifier::spinoff_prover]
fn parametric_op(st: &mut Validator, op: &Operator, loc: u32) -> (r: Result<(), ErrorKind>)
    requires
        old(st).wf(),
        old(st).controls@.len() >= 1,
        is_parametric_op(*op),
    ensures
        r is Err ==> final(st).arena == old(st).arena,
        final(st).wf(),
        final(st).arena@.len() >= old(st).arena@.len(),
        final(st).controls == old(st).controls,
        final(st).if_else == old(st).if_else,
        r is Ok ==> total_instrs(final(st).arena@) == total_instrs(old(st).arena@) + 1,
        r is Err ==> total_instrs(final(st).arena@) == total_instrs(old(st).arena@),
        forall|nl: int|
            arena_locals_ok(old(st).arena@, nl)
                ==> arena_locals_ok(final(st).arena@, nl),
        (*op) matches Operator::Const(v) ==> r is Ok
            && final(st).operands@ == old(st).operands@.push(Some(spec_value_ty(v))),
        ({
            let stp = g_parametric_step(abs(*old(st)), *op, loc);
            &&& (r is Ok <==> stp is Ok)
            &&& (r is Ok ==> abs(*final(st)) == stp->Ok_0)
            &&& (r is Err ==> r->Err_0 == stp->Err_0)
        }),
{
    proof {
        assert(g_top(abs(*old(st))) == abs_frame(old(st).top()));
    }
    match op {
Operator::Drop => {
            match st.pop_operand() {
                Err(k) => {
                    return Err(k);
                }
                Ok(_) => {}
            }
            match st.alloc_instr_in(0, Instr::Drop, loc) {
                Ok(_) => {}
                Err(_) => {
                    proof {
                        assert(false);
                    }
                }
            }
            proof {
                lemma_abs_append_at(
                    *old(st),
                    *st,
                    old(st).top().block as int,
                    Instr::Drop,
                    loc,
                );
            }
            Ok(())
        }
        Operator::Select => {
            match st.pop_expected(Some(ValType::I32)) {
                Err(k) => {
                    return Err(k);
                }
                Ok(_) => {}
            }
            let t1 = match st.pop_operand() {
                Ok(t) => t,
                Err(k) => {
                    return Err(k);
                }
            };
            match t1 {
                Some(ValType::I32) | Some(ValType::I64) | Some(ValType::F32)
                | Some(ValType::F64) => {}
                Some(_) => {
                    return Err(ErrorKind::TypeMismatch);
                }
                None => {}
            }
            let t2 = match st.pop_expected(t1) {
                Ok(t) => t,
                Err(k) => {
                    return Err(k);
                }
            };
            match st.alloc_instr_in(0, Instr::Select(None), loc) {
                Ok(_) => {}
                Err(_) => {
                    proof {
                        assert(false);
                    }
                }
            }
            st.push_operand(t2);
            proof {
                lemma_abs_append_at(
                    *old(st),
                    *st,
                    old(st).top().block as int,
                    Instr::Select(None),
                    loc,
                );
            }
            Ok(())
        }
        Operator::TypedSelect(ty) => {
            proof {
                lemma_pop_three(
                    old(st).operands@,
                    old(st).top().height as int,
                    old(st).top().unreachable,
                    *ty,
                    *ty,
                    ValType::I32,
                );
            }
            match st.pop_expected(Some(ValType::I32)) {
                Err(k) => {
                    return Err(k);
                }
                Ok(_) => {}
            }
            match st.pop_expected(Some(*ty)) {
                Err(k) => {
                    return Err(k);
                }
                Ok(_) => {}
            }
            match st.pop_expected(Some(*ty)) {
                Err(k) => {
                    return Err(k);
                }
                Ok(_) => {}
            }
            match st.alloc_instr_in(0, Instr::Select(Some(*ty)), loc) {
                Ok(_) => {}
                Err(_) => {
                    proof {
                        assert(false);
                    }
                }
            }
            st.push_operand(Some(*ty));
            proof {
                let h = old(st).top().height as int;
                let u = old(st).top().unreachable;
                let p1 = spec_pop(old(st).operands@, h, u, Some(ValType::I32));
                let p2 = spec_pop(p1->Ok_0.0, h, u, Some(*ty));
                let p3 = spec_pop(p2->Ok_0.0, h, u, Some(*ty));
                lemma_push_one(p3->Ok_0.0, *ty);
                lemma_abs_append_at(
                    *old(st),
                    *st,
                    old(st).top().block as int,
                    Instr::Select(Some(*ty)),
                    loc,
                );
            }
            Ok(())
        }
        Operator::Const(v) => {
            match st.alloc_instr_in(0, Instr::Const(*v), loc) {
                Ok(_) => {}
                Err(_) => {
                    proof {
                        assert(false);
                    }
                }
            }
            let t = value_ty(*v);
            st.push_operand(Some(t));
            proof {
                lemma_push_one(old(st).operands@, spec_value_ty(*v));
                lemma_abs_append_at(
                    *old(st),
                    *st,
                    old(st).top().block as int,
                    Instr::Const(*v),
                    loc,
                );
            }
            Ok(())
        }
        _ => {
            proof {
                assert(false);
            }
            Err(ErrorKind::MalformedOperator)
        }
    }
}


/// Handles the 128-bit vector value operators.
#[verifier::rlimit(100)]
#[verifier::spinoff_prover]
fn vector_op(st: &mut Validator, op: &Operator, loc: u32) -> (r: Result<(), ErrorKind>)
    requires
        old(st).wf(),
        old(st).controls@.len() >= 1,
        is_vector_op(*op),
    ensures
        r is Err ==> final(st).arena == old(st).arena,
        final(st).wf(),
        final(st).arena@.len() >= old(st).arena@.len(),
        final(st).controls == old(st).controls,
        final(st).if_else == old(st).if_else,
        r is Ok ==> total_instrs(final(st).arena@) == total_instrs(old(st).arena@) + 1,
        r is Err ==> total_instrs(final(st).arena@) == total_instrs(old(st).arena@),
        forall|nl: int|
            arena_locals_ok(old(st).arena@, nl)
                ==> arena_locals_ok(final(st).arena@, nl),
        ({
            let stp = g_vector_step(abs(*old(st)), *op, loc);
            &&& (r is Ok <==> stp is Ok)
            &&& (r is Ok ==> abs(*final(st)) == stp->Ok_0)
            &&& (r is Err ==> r->Err_0 == stp->Err_0)
        }),
{
    proof {
        assert(g_top(abs(*old(st))) == abs_frame(old(st).top()));
    }
    match op {
        Operator::V128Const(bytes) => {
            let val = v128_to_u128(bytes);
            proof {
                assert(val == spec_v128_val(bytes@) as u128);
            }
            match st.alloc_instr_in(0, Instr::Const(Value::V128(val)), loc) {
                Ok(_) => {}
                Err(_) => {
                    proof {
                        assert(false);
                    }
                }
            }
            st.push_operand(Some(ValType::V128));
            proof {
                lemma_push_one(old(st).operands@, ValType::V128);
                lemma_abs_append_at(
                    *old(st),
                    *st,
                    old(st).top().block as int,
                    Instr::Const(Value::V128(val)),
                    loc,
                );
            }
            Ok(())
        }
        Operator::V128Bitselect => {
            proof {
                lemma_pop_three(
                    old(st).operands@,
                    old(st).top().height as int,
                    old(st).top().unreachable,
                    ValType::V128,
                    ValType::V128,
                    ValType::V128,
                );
            }
            match st.pop_expected(Some(ValType::V128)) {
                Err(k) => {
                    return Err(k);
                }
                Ok(_) => {}
            }
            match st.pop_expected(Some(ValType::V128)) {
                Err(k) => {
                    return Err(k);
                }
                Ok(_) => {}
            }
            match st.pop_expected(Some(ValType::V128)) {
                Err(k) => {
                    return Err(k);
                }
                Ok(_) => {}
            }
            match st.alloc_instr_in(0, Instr::V128Bitselect, loc) {
                Ok(_) => {}
                Err(_) => {
                    proof {
                        assert(false);
                    }
                }
            }
            st.push_operand(Some(ValType::V128));
            proof {
                let h = old(st).top().height as int;
                let u = old(st).top().unreachable;
                let p1 = spec_pop(old(st).operands@, h, u, Some(ValType::V128));
                let p2 = spec_pop(p1->Ok_0.0, h, u, Some(ValType::V128));
                let p3 = spec_pop(p2->Ok_0.0, h, u, Some(ValType::V128));
                lemma_push_one(p3->Ok_0.0, ValType::V128);
                lemma_abs_append_at(
                    *old(st),
                    *st,
                    old(st).top().block as int,
                    Instr::V128Bitselect,
                    loc,
                );
            }
            Ok(())
        }
        Operator::V128Swizzle => {
            proof {
                lemma_pop_two(
                    old(st).operands@,
                    old(st).top().height as int,
                    old(st).top().unreachable,
                    ValType::V128,
                    ValType::V128,
                );
            }
            match st.pop_expected(Some(ValType::V128)) {
                Err(k) => {
                    return Err(k);
                }
                Ok(_) => {}
            }
            match st.pop_expected(Some(ValType::V128)) {
                Err(k) => {
                    return Err(k);
                }
                Ok(_) => {}
            }
            match st.alloc_instr_in(0, Instr::V128Swizzle, loc) {
                Ok(_) => {}
                Err(_) => {
                    proof {
                        assert(false);
                    }
                }
            }
            st.push_operand(Some(ValType::V128));
            proof {
                let h = old(st).top().height as int;
                let u = old(st).top().unreachable;
                let p1 = spec_pop(old(st).operands@, h, u, Some(ValType::V128));
                let p2 = spec_pop(p1->Ok_0.0, h, u, Some(ValType::V128));
                lemma_push_one(p2->Ok_0.0, ValType::V128);
                lemma_abs_append_at(
                    *old(st),
                    *st,
                    old(st).top().block as int,
                    Instr::V128Swizzle,
                    loc,
                );
            }
            Ok(())
        }
        Operator::V128Shuffle { lanes } => {
            proof {
                lemma_pop_two(
                    old(st).operands@,
                    old(st).top().height as int,
                    old(st).top().unreachable,
                    ValType::V128,
                    ValType::V128,
                );
            }
            match st.pop_expected(Some(ValType::V128)) {
                Err(k) => {
                    return Err(k);
                }
                Ok(_) => {}
            }
            match st.pop_expected(Some(ValType::V128)) {
                Err(k) => {
                    return Err(k);
                }
                Ok(_) => {}
            }
            match st.alloc_instr_in(0, Instr::V128Shuffle { lanes: *lanes }, loc) {
                Ok(_) => {}
                Err(_) => {
                    proof {
                        assert(false);
                    }
                }
            }
            st.push_operand(Some(ValType::V128));
            proof {
                let h = old(st).top().height as int;
                let u = old(st).top().unreachable;
                let p1 = spec_pop(old(st).operands@, h, u, Some(ValType::V128));
                let p2 = spec_pop(p1->Ok_0.0, h, u, Some(ValType::V128));
                lemma_push_one(p2->Ok_0.0, ValType::V128);
                lemma_abs_append_at(
                    *old(st),
                    *st,
                    old(st).top().block as int,
                    Instr::V128Shuffle { lanes: *lanes },
                    loc,
                );
            }
            Ok(())
        }
                _ => {
            proof {
                assert(false);
            }
            Err(ErrorKind::MalformedOperator)
        }
    }
}

/// Handles calls and local and global variable access.
#[verifier::rlimit(100)]
#[verifier::spinoff_prover]
fn call_var_op(
    st: &mut Validator,
    module: &ModuleInfo,
    ix: &Indices,
    func_id: usize,
    op: &Operator,
    loc: u32,
) -> (r: Result<(), ErrorKind>)
    requires
        old(st).wf(),
        old(st).controls@.len() >= 1,
        module.wf(),
        ix.wf(*module),
        func_id < module.funcs@.len(),
        is_call_var_op(*op),
    ensures
        r is Err ==> final(st).arena == old(st).arena,
        final(st).wf(),
        final(st).arena@.len() >= old(st).arena@.len(),
        final(st).controls == old(st).controls,
        final(st).if_else == old(st).if_else,
        r is Ok ==> total_instrs(final(st).arena@) == total_instrs(old(st).arena@) + 1,
        r is Err ==> total_instrs(final(st).arena@) == total_instrs(old(st).arena@),
        forall|nl: int|
            arena_locals_ok(old(st).arena@, nl) && module.locals@.len() <= nl
                ==> arena_locals_ok(final(st).arena@, nl),
        ({
            let stp = g_call_var_step(*module, *ix, func_id as int, abs(*old(st)), *op, loc);
            &&& (r is Ok <==> stp is Ok)
            &&& (r is Ok ==> abs(*final(st)) == stp->Ok_0)
            &&& (r is Err ==> r->Err_0 == stp->Err_0)
        }),
{
    proof {
        assert(g_top(abs(*old(st))) == abs_frame(old(st).top()));
    }
    match op {
Operator::Call(fi) => {
            let func = match ix.get_func(*fi) {
                Ok(f) => f,
                Err(k) => {
                    return Err(k);
                }
            };
            let tid = module.funcs[func];
            let params = copy_types(&module.types[tid].params);
            let results = copy_types(&module.types[tid].results);
            match st.pop_operands(&params) {
                Err(k) => {
                    return Err(k);
                }
                Ok(()) => {}
            }
            match st.alloc_instr_in(0, Instr::Call(func), loc) {
                Ok(_) => {}
                Err(_) => {
                    proof {
                        assert(false);
                    }
                }
            }
            st.push_operands(&results);
            proof {
                lemma_abs_append_at(
                    *old(st),
                    *st,
                    old(st).top().block as int,
                    Instr::Call(func),
                    loc,
                );
            }
            Ok(())
        }
        Operator::CallIndirect { type_index, table_index } => {
            let tid = match ix.get_type(*type_index) {
                Ok(t) => t,
                Err(k) => {
                    return Err(k);
                }
            };
            let table = match ix.get_table(*table_index) {
                Ok(t) => t,
                Err(k) => {
                    return Err(k);
                }
            };
            let params = copy_types(&module.types[tid].params);
            let results = copy_types(&module.types[tid].results);
            proof {
                let pv = module.types@[tid as int].params@;
                assert((pv.push(ValType::I32)).last() == ValType::I32);
                assert((pv.push(ValType::I32)).drop_last() =~= pv);
            }
            match st.pop_expected(Some(ValType::I32)) {
                Err(k) => {
                    return Err(k);
                }
                Ok(_) => {}
            }
            match st.pop_operands(&params) {
                Err(k) => {
                    return Err(k);
                }
                Ok(()) => {}
            }
            match st.alloc_instr_in(0, Instr::CallIndirect { ty: tid, table }, loc) {
                Ok(_) => {}
                Err(_) => {
                    proof {
                        assert(false);
                    }
                }
            }
            st.push_operands(&results);
            proof {
                lemma_abs_append_at(
                    *old(st),
                    *st,
                    old(st).top().block as int,
                    Instr::CallIndirect { ty: tid, table },
                    loc,
                );
            }
            Ok(())
        }
        Operator::LocalGet(li) => {
            let local = match ix.get_local(func_id, *li) {
                Ok(l) => l,
                Err(k) => {
                    return Err(k);
                }
            };
            let ty = module.locals[local];
            match st.alloc_instr_in(0, Instr::LocalGet(local), loc) {
                Ok(_) => {}
                Err(_) => {
                    proof {
                        assert(false);
                    }
                }
            }
            st.push_operand(Some(ty));
            proof {
                lemma_push_one(old(st).operands@, module.locals@[local as int]);
                lemma_abs_append_at(
                    *old(st),
                    *st,
                    old(st).top().block as int,
                    Instr::LocalGet(local),
                    loc,
                );
            }
            Ok(())
        }
        Operator::LocalSet(li) => {
            let local = match ix.get_local(func_id, *li) {
                Ok(l) => l,
                Err(k) => {
                    return Err(k);
                }
            };
            let ty = module.locals[local];
            proof {
                lemma_pop_one(
                    old(st).operands@,
                    old(st).top().height as int,
                    old(st).top().unreachable,
                    module.locals@[local as int],
                );
            }
            match st.pop_expected(Some(ty)) {
                Err(k) => {
                    return Err(k);
                }
                Ok(_) => {}
            }
            match st.alloc_instr_in(0, Instr::LocalSet(local), loc) {
                Ok(_) => {}
                Err(_) => {
                    proof {
                        assert(false);
                    }
                }
            }
            proof {
                lemma_push_none(st.operands@);
                lemma_abs_append_at(
                    *old(st),
                    *st,
                    old(st).top().block as int,
                    Instr::LocalSet(local),
                    loc,
                );
            }
            Ok(())
        }
        Operator::LocalTee(li) => {
            let local = match ix.get_local(func_id, *li) {
                Ok(l) => l,
                Err(k) => {
                    return Err(k);
                }
            };
            let ty = module.locals[local];
            proof {
                lemma_pop_one(
                    old(st).operands@,
                    old(st).top().height as int,
                    old(st).top().unreachable,
                    module.locals@[local as int],
                );
            }
            match st.pop_expected(Some(ty)) {
                Err(k) => {
                    return Err(k);
                }
                Ok(_) => {}
            }
            match st.alloc_instr_in(0, Instr::LocalTee(local), loc) {
                Ok(_) => {}
                Err(_) => {
                    proof {
                        assert(false);
                    }
                }
            }
            st.push_operand(Some(ty));
            proof {
                let p1 = spec_pop(
                    old(st).operands@,
                    old(st).top().height as int,
                    old(st).top().unreachable,
                    Some(module.locals@[local as int]),
                );
                lemma_push_one(p1->Ok_0.0, module.locals@[local as int]);
                lemma_abs_append_at(
                    *old(st),
                    *st,
                    old(st).top().block as int,
                    Instr::LocalTee(local),
                    loc,
                );
            }
            Ok(())
        }
        Operator::GlobalGet(gi) => {
            let global = match ix.get_global(*gi) {
                Ok(g) => g,
                Err(k) => {
                    return Err(k);
                }
            };
            let ty = module.globals[global];
            match st.alloc_instr_in(0, Instr::GlobalGet(global), loc) {
                Ok(_) => {}
                Err(_) => {
                    proof {
                        assert(false);
                    }
                }
            }
            st.push_operand(Some(ty));
            proof {
                lemma_push_one(old(st).operands@, module.globals@[global as int]);
                lemma_abs_append_at(
                    *old(st),
                    *st,
                    old(st).top().block as int,
                    Instr::GlobalGet(global),
                    loc,
                );
            }
            Ok(())
        }
        Operator::GlobalSet(gi) => {
            let global = match ix.get_global(*gi) {
                Ok(g) => g,
                Err(k) => {
                    return Err(k);
                }
            };
            let ty = module.globals[global];
            proof {
                lemma_pop_one(
                    old(st).operands@,
                    old(st).top().height as int,
                    old(st).top().unreachable,
                    module.globals@[global as int],
                );
            }
            match st.pop_expected(Some(ty)) {
                Err(k) => {
                    return Err(k);
                }
                Ok(_) => {}
            }
            match st.alloc_instr_in(0, Instr::GlobalSet(global), loc) {
                Ok(_) => {}
                Err(_) => {
                    proof {
                        assert(false);
                    }
                }
            }
            proof {
                lemma_push_none(st.operands@);
                lemma_abs_append_at(
                    *old(st),
                    *st,
                    old(st).top().block as int,
                    Instr::GlobalSet(global),
                    loc,
                );
            }
            Ok(())
        }
        _ => {
            proof {
                assert(false);
            }
            Err(ErrorKind::MalformedOperator)
        }
    }
}

/// Handles whole-memory operators.
#[verifier::rlimit(100)]
#[verifier::spinoff_prover]
fn memory_misc_op(
    st: &mut Validator,
    ix: &Indices,
    op: &Operator,
    loc: u32,
) -> (r: Result<(), ErrorKind>)
    requires
        old(st).wf(),
        old(st).controls@.len() >= 1,
        is_memory_misc_op(*op),
    ensures
        r is Err ==> final(st).arena == old(st).arena,
        final(st).wf(),
        final(st).arena@.len() >= old(st).arena@.len(),
        final(st).controls == old(st).controls,
        final(st).if_else == old(st).if_else,
        r is Ok ==> total_instrs(final(st).arena@) == total_instrs(old(st).arena@) + 1,
        r is Err ==> total_instrs(final(st).arena@) == total_instrs(old(st).arena@),
        forall|nl: int|
            arena_locals_ok(old(st).arena@, nl)
                ==> arena_locals_ok(final(st).arena@, nl),
        (*op) matches Operator::MemorySize { reserved } ==> ((reserved != 0 ==> r is Err
            && r->Err_0 == ErrorKind::MalformedReservedByte)
            && (reserved == 0 && ix.memories@.len() > 0 ==> r is Ok)),
        (*op) matches Operator::MemoryGrow { reserved } ==> (reserved != 0 ==> r is Err
            && r->Err_0 == ErrorKind::MalformedReservedByte),
        ({
            let stp = g_memory_misc_step(*ix, abs(*old(st)), *op, loc);
            &&& (r is Ok <==> stp is Ok)
            &&& (r is Ok ==> abs(*final(st)) == stp->Ok_0)
            &&& (r is Err ==> r->Err_0 == stp->Err_0)
        }),
{
    proof {
        assert(g_top(abs(*old(st))) == abs_frame(old(st).top()));
    }
    match op {
Operator::MemorySize { reserved } => {
            if *reserved != 0 {
                return Err(ErrorKind::MalformedReservedByte);
            }
            let memory = match ix.get_memory(0) {
                Ok(m) => m,
                Err(k) => {
                    return Err(k);
                }
            };
            match st.alloc_instr_in(0, Instr::MemorySize(memory), loc) {
                Ok(_) => {}
                Err(_) => {
                    proof {
                        assert(false);
                    }
                }
            }
            st.push_operand(Some(ValType::I32));
            proof {
                lemma_push_one(old(st).operands@, ValType::I32);
                lemma_abs_append_at(
                    *old(st),
                    *st,
                    old(st).top().block as int,
                    Instr::MemorySize(memory),
                    loc,
                );
            }
            Ok(())
        }
        Operator::MemoryGrow { reserved } => {
            if *reserved != 0 {
                return Err(ErrorKind::MalformedReservedByte);
            }
            match st.pop_expected(Some(ValType::I32)) {
                Err(k) => {
                    return Err(k);
                }
                Ok(_) => {}
            }
            let memory = match ix.get_memory(0) {
                Ok(m) => m,
                Err(k) => {
                    return Err(k);
                }
            };
            match st.alloc_instr_in(0, Instr::MemoryGrow(memory), loc) {
                Ok(_) => {}
                Err(_) => {
                    proof {
                        assert(false);
                    }
                }
            }
            st.push_operand(Some(ValType::I32));
            proof {
                lemma_abs_append_at(
                    *old(st),
                    *st,
                    old(st).top().block as int,
                    Instr::MemoryGrow(memory),
                    loc,
                );
            }
            Ok(())
        }
        Operator::MemoryInit { segment } => {
            match st.pop_expected(Some(ValType::I32)) {
                Err(k) => {
                    return Err(k);
                }
                Ok(_) => {}
            }
            match st.pop_expected(Some(ValType::I32)) {
                Err(k) => {
                    return Err(k);
                }
                Ok(_) => {}
            }
            match st.pop_expected(Some(ValType::I32)) {
                Err(k) => {
                    return Err(k);
                }
                Ok(_) => {}
            }
            let memory = match ix.get_memory(0) {
                Ok(m) => m,
                Err(k) => {
                    return Err(k);
                }
            };
            let data = match ix.get_data(*segment) {
                Ok(d) => d,
                Err(k) => {
                    return Err(k);
                }
            };
            match st.alloc_instr_in(0, Instr::MemoryInit { memory, data }, loc) {
                Ok(_) => {}
                Err(_) => {
                    proof {
                        assert(false);
                    }
                }
            }
            proof {
                lemma_abs_append_at(
                    *old(st),
                    *st,
                    old(st).top().block as int,
                    Instr::MemoryInit { memory, data },
                    loc,
                );
            }
            Ok(())
        }
        Operator::DataDrop { segment } => {
            let data = match ix.get_data(*segment) {
                Ok(d) => d,
                Err(k) => {
                    return Err(k);
                }
            };
            match st.alloc_instr_in(0, Instr::DataDrop(data), loc) {
                Ok(_) => {}
                Err(_) => {
                    proof {
                        assert(false);
                    }
                }
            }
            proof {
                lemma_push_none(st.operands@);
                lemma_abs_append_at(
                    *old(st),
                    *st,
                    old(st).top().block as int,
                    Instr::DataDrop(data),
                    loc,
                );
            }
            Ok(())
        }
        Operator::MemoryCopy => {
            match st.pop_expected(Some(ValType::I32)) {
                Err(k) => {
                    return Err(k);
                }
                Ok(_) => {}
            }
            match st.pop_expected(Some(ValType::I32)) {
                Err(k) => {
                    return Err(k);
                }
                Ok(_) => {}
            }
            match st.pop_expected(Some(ValType::I32)) {
                Err(k) => {
                    return Err(k);
                }
                Ok(_) => {}
            }
            let memory = match ix.get_memory(0) {
                Ok(m) => m,
                Err(k) => {
                    return Err(k);
                }
            };
            match st.alloc_instr_in(0, Instr::MemoryCopy { src: memory, dst: memory }, loc) {
                Ok(_) => {}
                Err(_) => {
                    proof {
                        assert(false);
                    }
                }
            }
            proof {
                lemma_abs_append_at(
                    *old(st),
                    *st,
                    old(st).top().block as int,
                    Instr::MemoryCopy { src: memory, dst: memory },
                    loc,
                );
            }
            Ok(())
        }
        Operator::MemoryFill => {
            match st.pop_expected(Some(ValType::I32)) {
                Err(k) => {
                    return Err(k);
                }
                Ok(_) => {}
            }
            match st.pop_expected(Some(ValType::I32)) {
                Err(k) => {
                    return Err(k);
                }
                Ok(_) => {}
            }
            match st.pop_expected(Some(ValType::I32)) {
                Err(k) => {
                    return Err(k);
                }
                Ok(_) => {}
            }
            let memory = match ix.get_memory(0) {
                Ok(m) => m,
                Err(k) => {
                    return Err(k);
                }
            };
            match st.alloc_instr_in(0, Instr::MemoryFill(memory), loc) {
                Ok(_) => {}
                Err(_) => {
                    proof {
                        assert(false);
                    }
                }
            }
            proof {
                lemma_abs_append_at(
                    *old(st),
                    *st,
                    old(st).top().block as int,
                    Instr::MemoryFill(memory),
                    loc,
                );
            }
            Ok(())
        }
        _ => {
            proof {
                assert(false);
            }
            Err(ErrorKind::MalformedOperator)
        }
    }
}


/// Handles the bulk-memory operators.
#[verifier::rlimit(100)]
#[verifier::spinoff_prover]
fn memory_bulk_op(
    st: &mut Validator,
    ix: &Indices,
    op: &Operator,
    loc: u32,
) -> (r: Result<(), ErrorKind>)
    requires
        old(st).wf(),
        old(st).controls@.len() >= 1,
        is_memory_bulk_op(*op),
    ensures
        r is Err ==> final(st).arena == old(st).arena,
        final(st).wf(),
        final(st).arena@.len() >= old(st).arena@.len(),
        final(st).controls == old(st).controls,
        final(st).if_else == old(st).if_else,
        r is Ok ==> total_instrs(final(st).arena@) == total_instrs(old(st).arena@) + 1,
        r is Err ==> total_instrs(final(st).arena@) == total_instrs(old(st).arena@),
        forall|nl: int|
            arena_locals_ok(old(st).arena@, nl)
                ==> arena_locals_ok(final(st).arena@, nl),
        ({
            let stp = g_memory_bulk_step(*ix, abs(*old(st)), *op, loc);
            &&& (r is Ok <==> stp is Ok)
            &&& (r is Ok ==> abs(*final(st)) == stp->Ok_0)
            &&& (r is Err ==> r->Err_0 == stp->Err_0)
        }),
{
    proof {
        assert(g_top(abs(*old(st))) == abs_frame(old(st).top()));
        lemma_pop_three(
            old(st).operands@,
            old(st).top().height as int,
            old(st).top().unreachable,
            ValType::I32,
            ValType::I32,
            ValType::I32,
        );
    }
    match op {
        Operator::MemoryInit { segment } => {
            match st.pop_expected(Some(ValType::I32)) {
                Err(k) => {
                    return Err(k);
                }
                Ok(_) => {}
            }
            match st.pop_expected(Some(ValType::I32)) {
                Err(k) => {
                    return Err(k);
                }
                Ok(_) => {}
            }
            match st.pop_expected(Some(ValType::I32)) {
                Err(k) => {
                    return Err(k);
                }
                Ok(_) => {}
            }
            let memory = match ix.get_memory(0) {
                Ok(m) => m,
                Err(k) => {
                    return Err(k);
                }
            };
            let data = match ix.get_data(*segment) {
                Ok(d) => d,
                Err(k) => {
                    return Err(k);
                }
            };
            match st.alloc_instr_in(0, Instr::MemoryInit { memory, data }, loc) {
                Ok(_) => {}
                Err(_) => {
                    proof {
                        assert(false);
                    }
                }
            }
            proof {
                lemma_abs_append_at(
                    *old(st),
                    *st,
                    old(st).top().block as int,
                    Instr::MemoryInit { memory, data },
                    loc,
                );
            }
            Ok(())
        }
        Operator::MemoryCopy => {
            match st.pop_expected(Some(ValType::I32)) {
                Err(k) => {
                    return Err(k);
                }
                Ok(_) => {}
            }
            match st.pop_expected(Some(ValType::I32)) {
                Err(k) => {
                    return Err(k);
                }
                Ok(_) => {}
            }
            match st.pop_expected(Some(ValType::I32)) {
                Err(k) => {
                    return Err(k);
                }
                Ok(_) => {}
            }
            let memory = match ix.get_memory(0) {
                Ok(m) => m,
                Err(k) => {
                    return Err(k);
                }
            };
            match st.alloc_instr_in(0, Instr::MemoryCopy { src: memory, dst: memory }, loc) {
                Ok(_) => {}
                Err(_) => {
                    proof {
                        assert(false);
                    }
                }
            }
            proof {
                lemma_abs_append_at(
                    *old(st),
                    *st,
                    old(st).top().block as int,
                    Instr::MemoryCopy { src: memory, dst: memory },
                    loc,
                );
            }
            Ok(())
        }
        Operator::MemoryFill => {
            match st.pop_expected(Some(ValType::I32)) {
                Err(k) => {
                    return Err(k);
                }
                Ok(_) => {}
            }
            match st.pop_expected(Some(ValType::I32)) {
                Err(k) => {
                    return Err(k);
                }
                Ok(_) => {}
            }
            match st.pop_expected(Some(ValType::I32)) {
                Err(k) => {
                    return Err(k);
                }
                Ok(_) => {}
            }
            let memory = match ix.get_memory(0) {
                Ok(m) => m,
                Err(k) => {
                    return Err(k);
                }
            };
            match st.alloc_instr_in(0, Instr::MemoryFill(memory), loc) {
                Ok(_) => {}
                Err(_) => {
                    proof {
                        assert(false);
                    }
                }
            }
            proof {
                lemma_abs_append_at(
                    *old(st),
                    *st,
                    old(st).top().block as int,
                    Instr::MemoryFill(memory),
                    loc,
                );
            }
            Ok(())
        }
        _ => {
            proof {
                assert(false);
            }
            Err(ErrorKind::MalformedOperator)
        }
    }
}

/// Handles the fence and the wait/notify operators.
#[verifier::rlimit(100)]
#[verifier::spinoff_prover]
fn sync_op(st: &mut Validator, ix: &Indices, op: &Operator, loc: u32) -> (r: Result<(), ErrorKind>)
    requires
        old(st).wf(),
        old(st).controls@.len() >= 1,
        is_sync_op(*op),
    ensures
        r is Err ==> final(st).arena == old(st).arena,
        final(st).wf(),
        final(st).arena@.len() >= old(st).arena@.len(),
        final(st).controls == old(st).controls,
        final(st).if_else == old(st).if_else,
        r is Ok ==> total_instrs(final(st).arena@) == total_instrs(old(st).arena@) + 1,
        r is Err ==> total_instrs(final(st).arena@) == total_instrs(old(st).arena@),
        forall|nl: int|
            arena_locals_ok(old(st).arena@, nl)
                ==> arena_locals_ok(final(st).arena@, nl),
        (*op) matches Operator::AtomicFence { flags } ==> ((r is Ok <==> flags == 0)
            && (flags != 0 ==> r->Err_0 == ErrorKind::UnsupportedAtomicFence)),
        ({
            let stp = g_sync_step(*ix, abs(*old(st)), *op, loc);
            &&& (r is Ok <==> stp is Ok)
            &&& (r is Ok ==> abs(*final(st)) == stp->Ok_0)
            &&& (r is Err ==> r->Err_0 == stp->Err_0)
        }),
{
    proof {
        assert(g_top(abs(*old(st))) == abs_frame(old(st).top()));
    }
    match op {
        Operator::AtomicFence { flags } => {
            if *flags != 0 {
                return Err(ErrorKind::UnsupportedAtomicFence);
            }
            match st.alloc_instr_in(0, Instr::AtomicFence, loc) {
                Ok(_) => {}
                Err(_) => {
                    proof {
                        assert(false);
                    }
                }
            }
            proof {
                lemma_push_none(st.operands@);
                lemma_abs_append_at(
                    *old(st),
                    *st,
                    old(st).top().block as int,
                    Instr::AtomicFence,
                    loc,
                );
            }
            Ok(())
        }
        Operator::AtomicNotify { memarg } => {
            proof {
                lemma_pop_two(
                    old(st).operands@,
                    old(st).top().height as int,
                    old(st).top().unreachable,
                    ValType::I32,
                    ValType::I32,
                );
            }
            match st.pop_expected(Some(ValType::I32)) {
                Err(k) => {
                    return Err(k);
                }
                Ok(_) => {}
            }
            match st.pop_expected(Some(ValType::I32)) {
                Err(k) => {
                    return Err(k);
                }
                Ok(_) => {}
            }
            let memory = match ix.get_memory(0) {
                Ok(m) => m,
                Err(k) => {
                    return Err(k);
                }
            };
            let arg = match decode_mem_arg(memarg) {
                Ok(a) => a,
                Err(k) => {
                    return Err(k);
                }
            };
            match st.alloc_instr_in(0, Instr::AtomicNotify { memory, arg }, loc) {
                Ok(_) => {}
                Err(_) => {
                    proof {
                        assert(false);
                    }
                }
            }
            st.push_operand(Some(ValType::I32));
            proof {
                let h = old(st).top().height as int;
                let u = old(st).top().unreachable;
                let p1 = spec_pop(old(st).operands@, h, u, Some(ValType::I32));
                let p2 = spec_pop(p1->Ok_0.0, h, u, Some(ValType::I32));
                lemma_push_one(p2->Ok_0.0, ValType::I32);
                lemma_abs_append_at(
                    *old(st),
                    *st,
                    old(st).top().block as int,
                    Instr::AtomicNotify { memory, arg },
                    loc,
                );
            }
            Ok(())
        }
        Operator::AtomicWait { memarg, sixty_four } => {
            let ty = if *sixty_four {
                ValType::I64
            } else {
                ValType::I32
            };
            proof {
                lemma_pop_three(
                    old(st).operands@,
                    old(st).top().height as int,
                    old(st).top().unreachable,
                    ValType::I32,
                    if *sixty_four { ValType::I64 } else { ValType::I32 },
                    ValType::I64,
                );
            }
            match st.pop_expected(Some(ValType::I64)) {
                Err(k) => {
                    return Err(k);
                }
                Ok(_) => {}
            }
            match st.pop_expected(Some(ty)) {
                Err(k) => {
                    return Err(k);
                }
                Ok(_) => {}
            }
            match st.pop_expected(Some(ValType::I32)) {
                Err(k) => {
                    return Err(k);
                }
                Ok(_) => {}
            }
            let memory = match ix.get_memory(0) {
                Ok(m) => m,
                Err(k) => {
                    return Err(k);
                }
            };
            let arg = match decode_mem_arg(memarg) {
                Ok(a) => a,
                Err(k) => {
                    return Err(k);
                }
            };
            match st.alloc_instr_in(
                0,
                Instr::AtomicWait { memory, arg, sixty_four: *sixty_four },
                loc,
            ) {
                Ok(_) => {}
                Err(_) => {
                    proof {
                        assert(false);
                    }
                }
            }
            st.push_operand(Some(ValType::I32));
            proof {
                let h = old(st).top().height as int;
                let u = old(st).top().unreachable;
                let p1 = spec_pop(old(st).operands@, h, u, Some(ValType::I64));
                let p2 = spec_pop(p1->Ok_0.0, h, u, Some(ty));
                let p3 = spec_pop(p2->Ok_0.0, h, u, Some(ValType::I32));
                lemma_push_one(p3->Ok_0.0, ValType::I32);
                lemma_abs_append_at(
                    *old(st),
                    *st,
                    old(st).top().block as int,
                    Instr::AtomicWait { memory, arg, sixty_four: *sixty_four },
                    loc,
                );
            }
            Ok(())
        }
                _ => {
            proof {
                assert(false);
            }
            Err(ErrorKind::MalformedOperator)
        }
    }
}

/// Handles table and reference operators.
#[verifier::rlimit(100)]
#[verifier::spinoff_prover]
fn table_ref_op(
    st: &mut Validator,
    module: &ModuleInfo,
    ix: &Indices,
    op: &Operator,
    loc: u32,
) -> (r: Result<(), ErrorKind>)
    requires
        old(st).wf(),
        old(st).controls@.len() >= 1,
        module.wf(),
        ix.wf(*module),
        is_table_ref_op(*op),
    ensures
        r is Err ==> final(st).arena == old(st).arena,
        final(st).wf(),
        final(st).arena@.len() >= old(st).arena@.len(),
        final(st).controls == old(st).controls,
        final(st).if_else == old(st).if_else,
        r is Ok ==> total_instrs(final(st).arena@) == total_instrs(old(st).arena@) + 1,
        r is Err ==> total_instrs(final(st).arena@) == total_instrs(old(st).arena@),
        forall|nl: int|
            arena_locals_ok(old(st).arena@, nl)
                ==> arena_locals_ok(final(st).arena@, nl),
        ({
            let stp = g_table_ref_step(*module, *ix, abs(*old(st)), *op, loc);
            &&& (r is Ok <==> stp is Ok)
            &&& (r is Ok ==> abs(*final(st)) == stp->Ok_0)
            &&& (r is Err ==> r->Err_0 == stp->Err_0)
        }),
{
    proof {
        assert(g_top(abs(*old(st))) == abs_frame(old(st).top()));
    }
    match op {
Operator::TableGet(ti) => {
            let table = match ix.get_table(*ti) {
                Ok(t) => t,
                Err(k) => {
                    return Err(k);
                }
            };
            proof {
                lemma_pop_one(
                    old(st).operands@,
                    old(st).top().height as int,
                    old(st).top().unreachable,
                    ValType::I32,
                );
            }
            match st.pop_expected(Some(ValType::I32)) {
                Err(k) => {
                    return Err(k);
                }
                Ok(_) => {}
            }
            match st.alloc_instr_in(0, Instr::TableGet(table), loc) {
                Ok(_) => {}
                Err(_) => {
                    proof {
                        assert(false);
                    }
                }
            }
            let result = module.tables[table];
            st.push_operand(Some(result));
            proof {
                let p1 = spec_pop(
                    old(st).operands@,
                    old(st).top().height as int,
                    old(st).top().unreachable,
                    Some(ValType::I32),
                );
                lemma_push_one(p1->Ok_0.0, module.tables@[table as int]);
                lemma_abs_append_at(
                    *old(st),
                    *st,
                    old(st).top().block as int,
                    Instr::TableGet(table),
                    loc,
                );
            }
            Ok(())
        }
        Operator::TableSet(ti) => {
            let table = match ix.get_table(*ti) {
                Ok(t) => t,
                Err(k) => {
                    return Err(k);
                }
            };
            let expected_ty = module.tables[table];
            proof {
                lemma_pop_two(
                    old(st).operands@,
                    old(st).top().height as int,
                    old(st).top().unreachable,
                    ValType::I32,
                    module.tables@[table as int],
                );
            }
            match st.pop_expected(Some(expected_ty)) {
                Err(k) => {
                    return Err(k);
                }
                Ok(_) => {}
            }
            match st.pop_expected(Some(ValType::I32)) {
                Err(k) => {
                    return Err(k);
                }
                Ok(_) => {}
            }
            match st.alloc_instr_in(0, Instr::TableSet(table), loc) {
                Ok(_) => {}
                Err(_) => {
                    proof {
                        assert(false);
                    }
                }
            }
            proof {
                lemma_push_none(st.operands@);
                lemma_abs_append_at(
                    *old(st),
                    *st,
                    old(st).top().block as int,
                    Instr::TableSet(table),
                    loc,
                );
            }
            Ok(())
        }
        Operator::TableGrow(ti) => {
            let table = match ix.get_table(*ti) {
                Ok(t) => t,
                Err(k) => {
                    return Err(k);
                }
            };
            let expected_ty = module.tables[table];
            proof {
                lemma_pop_two(
                    old(st).operands@,
                    old(st).top().height as int,
                    old(st).top().unreachable,
                    module.tables@[table as int],
                    ValType::I32,
                );
            }
            match st.pop_expected(Some(ValType::I32)) {
                Err(k) => {
                    return Err(k);
                }
                Ok(_) => {}
            }
            match st.pop_expected(Some(expected_ty)) {
                Err(k) => {
                    return Err(k);
                }
                Ok(_) => {}
            }
            match st.alloc_instr_in(0, Instr::TableGrow(table), loc) {
                Ok(_) => {}
                Err(_) => {
                    proof {
                        assert(false);
                    }
                }
            }
            st.push_operand(Some(ValType::I32));
            proof {
                let h = old(st).top().height as int;
                let u = old(st).top().unreachable;
                let p1 = spec_pop(old(st).operands@, h, u, Some(ValType::I32));
                let p2 = spec_pop(p1->Ok_0.0, h, u, Some(module.tables@[table as int]));
                lemma_push_one(p2->Ok_0.0, ValType::I32);
                lemma_abs_append_at(
                    *old(st),
                    *st,
                    old(st).top().block as int,
                    Instr::TableGrow(table),
                    loc,
                );
            }
            Ok(())
        }
        Operator::TableSize(ti) => {
            let table = match ix.get_table(*ti) {
                Ok(t) => t,
                Err(k) => {
                    return Err(k);
                }
            };
            match st.alloc_instr_in(0, Instr::TableSize(table), loc) {
                Ok(_) => {}
                Err(_) => {
                    proof {
                        assert(false);
                    }
                }
            }
            st.push_operand(Some(ValType::I32));
            proof {
                lemma_push_one(old(st).operands@, ValType::I32);
                lemma_abs_append_at(
                    *old(st),
                    *st,
                    old(st).top().block as int,
                    Instr::TableSize(table),
                    loc,
                );
            }
            Ok(())
        }
        Operator::TableFill(ti) => {
            let table = match ix.get_table(*ti) {
                Ok(t) => t,
                Err(k) => {
                    return Err(k);
                }
            };
            let expected_ty = module.tables[table];
            proof {
                lemma_pop_three(
                    old(st).operands@,
                    old(st).top().height as int,
                    old(st).top().unreachable,
                    ValType::I32,
                    module.tables@[table as int],
                    ValType::I32,
                );
            }
            match st.pop_expected(Some(ValType::I32)) {
                Err(k) => {
                    return Err(k);
                }
                Ok(_) => {}
            }
            match st.pop_expected(Some(expected_ty)) {
                Err(k) => {
                    return Err(k);
                }
                Ok(_) => {}
            }
            match st.pop_expected(Some(ValType::I32)) {
                Err(k) => {
                    return Err(k);
                }
                Ok(_) => {}
            }
            match st.alloc_instr_in(0, Instr::TableFill(table), loc) {
                Ok(_) => {}
                Err(_) => {
                    proof {
                        assert(false);
                    }
                }
            }
            proof {
                lemma_push_none(st.operands@);
                lemma_abs_append_at(
                    *old(st),
                    *st,
                    old(st).top().block as int,
                    Instr::TableFill(table),
                    loc,
                );
            }
            Ok(())
        }
        _ => {
            proof {
                assert(false);
            }
            Err(ErrorKind::MalformedOperator)
        }
    }
}


/// Handles reference operators and table segment operators.
#[verifier::rlimit(100)]
#[verifier::spinoff_prover]
fn ref_seg_op(
    st: &mut Validator,
    module: &ModuleInfo,
    ix: &Indices,
    op: &Operator,
    loc: u32,
) -> (r: Result<(), ErrorKind>)
    requires
        old(st).wf(),
        old(st).controls@.len() >= 1,
        module.wf(),
        ix.wf(*module),
        is_ref_seg_op(*op),
    ensures
        r is Err ==> final(st).arena == old(st).arena,
        final(st).wf(),
        final(st).arena@.len() >= old(st).arena@.len(),
        final(st).controls == old(st).controls,
        final(st).if_else == old(st).if_else,
        r is Ok ==> total_instrs(final(st).arena@) == total_instrs(old(st).arena@) + 1,
        r is Err ==> total_instrs(final(st).arena@) == total_instrs(old(st).arena@),
        forall|nl: int|
            arena_locals_ok(old(st).arena@, nl)
                ==> arena_locals_ok(final(st).arena@, nl),
        ({
            let stp = g_ref_seg_step(*module, *ix, abs(*old(st)), *op, loc);
            &&& (r is Ok <==> stp is Ok)
            &&& (r is Ok ==> abs(*final(st)) == stp->Ok_0)
            &&& (r is Err ==> r->Err_0 == stp->Err_0)
        }),
{
    proof {
        assert(g_top(abs(*old(st))) == abs_frame(old(st).top()));
        lemma_pop_three(
            old(st).operands@,
            old(st).top().height as int,
            old(st).top().unreachable,
            ValType::I32,
            ValType::I32,
            ValType::I32,
        );
    }
    match op {
        Operator::RefNull(ty) => {
            match st.alloc_instr_in(0, Instr::RefNull(*ty), loc) {
                Ok(_) => {}
                Err(_) => {
                    proof {
                        assert(false);
                    }
                }
            }
            st.push_operand(Some(*ty));
            proof {
                lemma_push_one(old(st).operands@, *ty);
                lemma_abs_append_at(
                    *old(st),
                    *st,
                    old(st).top().block as int,
                    Instr::RefNull(*ty),
                    loc,
                );
            }
            Ok(())
        }
        Operator::RefIsNull(ty) => {
            proof {
                lemma_pop_one(
                    old(st).operands@,
                    old(st).top().height as int,
                    old(st).top().unreachable,
                    *ty,
                );
            }
            match st.pop_expected(Some(*ty)) {
                Err(k) => {
                    return Err(k);
                }
                Ok(_) => {}
            }
            match st.alloc_instr_in(0, Instr::RefIsNull(*ty), loc) {
                Ok(_) => {}
                Err(_) => {
                    proof {
                        assert(false);
                    }
                }
            }
            st.push_operand(Some(ValType::I32));
            proof {
                let p1 = spec_pop(
                    old(st).operands@,
                    old(st).top().height as int,
                    old(st).top().unreachable,
                    Some(*ty),
                );
                lemma_push_one(p1->Ok_0.0, ValType::I32);
                lemma_abs_append_at(
                    *old(st),
                    *st,
                    old(st).top().block as int,
                    Instr::RefIsNull(*ty),
                    loc,
                );
            }
            Ok(())
        }
        Operator::RefFunc(fi) => {
            let func = match ix.get_func(*fi) {
                Ok(f) => f,
                Err(k) => {
                    return Err(k);
                }
            };
            match st.alloc_instr_in(0, Instr::RefFunc(func), loc) {
                Ok(_) => {}
                Err(_) => {
                    proof {
                        assert(false);
                    }
                }
            }
            st.push_operand(Some(ValType::Funcref));
            proof {
                lemma_push_one(old(st).operands@, ValType::Funcref);
                lemma_abs_append_at(
                    *old(st),
                    *st,
                    old(st).top().block as int,
                    Instr::RefFunc(func),
                    loc,
                );
            }
            Ok(())
        }
        Operator::TableCopy { src_table, dst_table } => {
            let src = match ix.get_table(*src_table) {
                Ok(t) => t,
                Err(k) => {
                    return Err(k);
                }
            };
            let dst = match ix.get_table(*dst_table) {
                Ok(t) => t,
                Err(k) => {
                    return Err(k);
                }
            };
            let src_ty = module.tables[src];
            let dst_ty = module.tables[dst];
            if src_ty != dst_ty {
                return Err(ErrorKind::TypeMismatch);
            }
            match st.pop_expected(Some(ValType::I32)) {
                Err(k) => {
                    return Err(k);
                }
                Ok(_) => {}
            }
            match st.pop_expected(Some(ValType::I32)) {
                Err(k) => {
                    return Err(k);
                }
                Ok(_) => {}
            }
            match st.pop_expected(Some(ValType::I32)) {
                Err(k) => {
                    return Err(k);
                }
                Ok(_) => {}
            }
            match st.alloc_instr_in(0, Instr::TableCopy { src, dst }, loc) {
                Ok(_) => {}
                Err(_) => {
                    proof {
                        assert(false);
                    }
                }
            }
            proof {
                lemma_push_none(st.operands@);
                lemma_abs_append_at(
                    *old(st),
                    *st,
                    old(st).top().block as int,
                    Instr::TableCopy { src, dst },
                    loc,
                );
            }
            Ok(())
        }
        Operator::TableInit { segment, table } => {
            let elem = match ix.get_element(*segment) {
                Ok(e) => e,
                Err(k) => {
                    return Err(k);
                }
            };
            let table = match ix.get_table(*table) {
                Ok(t) => t,
                Err(k) => {
                    return Err(k);
                }
            };
            let elem_ty = module.elements[elem];
            let table_ty = module.tables[table];
            if elem_ty != table_ty {
                return Err(ErrorKind::TypeMismatch);
            }
            match st.pop_expected(Some(ValType::I32)) {
                Err(k) => {
                    return Err(k);
                }
                Ok(_) => {}
            }
            match st.pop_expected(Some(ValType::I32)) {
                Err(k) => {
                    return Err(k);
                }
                Ok(_) => {}
            }
            match st.pop_expected(Some(ValType::I32)) {
                Err(k) => {
                    return Err(k);
                }
                Ok(_) => {}
            }
            match st.alloc_instr_in(0, Instr::TableInit { elem, table }, loc) {
                Ok(_) => {}
                Err(_) => {
                    proof {
                        assert(false);
                    }
                }
            }
            proof {
                lemma_push_none(st.operands@);
                lemma_abs_append_at(
                    *old(st),
                    *st,
                    old(st).top().block as int,
                    Instr::TableInit { elem, table },
                    loc,
                );
            }
            Ok(())
        }
        Operator::ElemDrop { segment } => {
            let elem = match ix.get_element(*segment) {
                Ok(e) => e,
                Err(k) => {
                    return Err(k);
                }
            };
            match st.alloc_instr_in(0, Instr::ElemDrop(elem), loc) {
                Ok(_) => {}
                Err(_) => {
                    proof {
                        assert(false);
                    }
                }
            }
            proof {
                lemma_push_none(st.operands@);
                lemma_abs_append_at(
                    *old(st),
                    *st,
                    old(st).top().block as int,
                    Instr::ElemDrop(elem),
                    loc,
                );
            }
            Ok(())
        }
        _ => {
            proof {
                assert(false);
            }
            Err(ErrorKind::MalformedOperator)
        }
    }
}

/// Validates one decoded operator: pop checks, side-effect checks,
/// append, push, in that order.  On success the state invariants are
/// preserved and the node accounting advances by the operator's count;
/// on failure the caller discards the whole state.
#[verifier::loop_isolation(false)]
#[verifier::rlimit(100)]
#[verifier::spinoff_prover]
pub fn validate_instruction(
    st: &mut Validator,
    module: &ModuleInfo,
    ix: &Indices,
    func_id: usize,
    op: &Operator,
    loc: u32,
) -> (r: Result<(), ErrorKind>)
    requires
        old(st).wf(),
        old(st).controls@.len() >= 1,
        module.wf(),
        ix.wf(*module),
        func_id < module.funcs@.len(),
    ensures
        r is Err ==> final(st).arena == old(st).arena,
        final(st).stacks_wf(),
        final(st).arena@.len() >= old(st).arena@.len(),
        r is Ok ==> final(st).wf(),
        r is Ok ==> total_instrs(final(st).arena@) + final(st).if_else@.len()
            == total_instrs(old(st).arena@) + old(st).if_else@.len() + op_nodes(*op),
        r is Ok ==> (final(st).controls@.len() == 0
            <==> (old(st).controls@.len() == 1 && (*op) is End)),
        forall|nl: int|
            arena_locals_ok(old(st).arena@, nl) && module.locals@.len() <= nl
                ==> arena_locals_ok(final(st).arena@, nl),
        (*op) is Nop ==> r is Ok && same_state(*old(st), *final(st)),
        (*op) is Unreachable ==> r is Ok
            && final(st).operands@ == old(st).operands@.subrange(
                0,
                old(st).top().height as int,
            )
            && final(st).top().unreachable,
        (*op) matches Operator::Const(v) ==> r is Ok
            && final(st).operands@ == old(st).operands@.push(Some(spec_value_ty(v))),
        (*op) matches Operator::AtomicFence { flags } ==> ((r is Ok <==> flags == 0)
            && (flags != 0 ==> r->Err_0 == ErrorKind::UnsupportedAtomicFence)),
        (*op) matches Operator::MemorySize { reserved } ==> ((reserved != 0 ==> r is Err
            && r->Err_0 == ErrorKind::MalformedReservedByte)
            && (reserved == 0 && ix.memories@.len() > 0 ==> r is Ok)),
        (*op) matches Operator::MemoryGrow { reserved } ==> (reserved != 0 ==> r is Err
            && r->Err_0 == ErrorKind::MalformedReservedByte),
        ({
            let stp = spec_step(*module, *ix, func_id as int, abs(*old(st)), *op, loc);
            &&& (r is Ok <==> stp is Ok)
            &&& (r is Ok ==> abs(*final(st)) == stp->Ok_0)
            &&& (r is Err ==> r->Err_0 == stp->Err_0)
        }),
{
    match op {
        Operator::Nop => Ok(()),
        Operator::Unreachable => unreachable_op(st, loc),
        Operator::Return => return_op(st, module, func_id, loc),
        Operator::Block(bt) => block_op(st, module, ix, *bt, loc),
        Operator::Loop(bt) => loop_op(st, module, ix, *bt, loc),
        Operator::If(bt) => if_op(st, module, ix, *bt, loc),
        Operator::Else => else_op(st, loc),
        Operator::End => end_op(st, loc),
        Operator::Br(depth) => br_op(st, *depth, loc),
        Operator::BrIf(depth) => br_if_op(st, *depth, loc),
        Operator::BrTable(t) => br_table_op(st, t, loc),
        Operator::Unop(u) => {
            let sig = unop_sig(*u);
            one_op(st, sig.0, sig.1, *u, loc)
        }
        Operator::Binop(b) => {
            let sig = binop_sig(*b);
            two_ops(st, sig.0, sig.1, sig.2, *b, loc)
        }
        Operator::Load { memarg, kind } => load_op(st, ix, *memarg, *kind, loc),
        Operator::Store { memarg, kind } => store_op(st, ix, *memarg, *kind, loc),
        Operator::AtomicRmw { memarg, op: aop, width } => {
            atomicrmw_op(st, ix, *memarg, *aop, *width, loc)
        }
        Operator::Cmpxchg { memarg, width } => cmpxchg_op(st, ix, *memarg, *width, loc),
        Operator::LoadSimd { memarg, kind } => load_simd_op(st, ix, *memarg, *kind, loc),
        Operator::Drop | Operator::Select | Operator::TypedSelect(_) | Operator::Const(_)
            => parametric_op(st, op, loc),
        Operator::V128Const(_) | Operator::V128Bitselect | Operator::V128Swizzle
        | Operator::V128Shuffle { .. } => vector_op(st, op, loc),
        Operator::Call(_) | Operator::CallIndirect { .. } | Operator::LocalGet(_)
        | Operator::LocalSet(_) | Operator::LocalTee(_) | Operator::GlobalGet(_)
        | Operator::GlobalSet(_) => call_var_op(st, module, ix, func_id, op, loc),
        Operator::MemorySize { .. } | Operator::MemoryGrow { .. } | Operator::DataDrop { .. }
            => memory_misc_op(st, ix, op, loc),
        Operator::MemoryInit { .. } | Operator::MemoryCopy | Operator::MemoryFill
            => memory_bulk_op(st, ix, op, loc),
        Operator::AtomicFence { .. } | Operator::AtomicNotify { .. }
        | Operator::AtomicWait { .. } => sync_op(st, ix, op, loc),
        Operator::TableGet(_) | Operator::TableSet(_) | Operator::TableGrow(_)
        | Operator::TableSize(_) | Operator::TableFill(_) => {
            table_ref_op(st, module, ix, op, loc)
        }
        Operator::RefNull(_) | Operator::RefIsNull(_) | Operator::RefFunc(_)
        | Operator::TableCopy { .. } | Operator::TableInit { .. }
        | Operator::ElemDrop { .. } => ref_seg_op(st, module, ix, op, loc),
    }
}

/// Records a freshly opened `if`'s consequent on the staging stack.
fn stage_if_entry(st: &mut Validator, consequent: usize)
    requires
        old(st).stacks_wf(),
    ensures
        final(st).stacks_wf(),
        final(st).arena@.len() >= old(st).arena@.len(),
        final(st).controls == old(st).controls,
        final(st).operands == old(st).operands,
        final(st).arena == old(st).arena,
        final(st).if_else@ == old(st).if_else@.push(
            IfElseState { consequent, alternative: None },
        ),
{
    st.if_else.push(IfElseState { consequent, alternative: None });
}

} // verus!
