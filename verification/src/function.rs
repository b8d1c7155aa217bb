//! A function defined locally within the module: its validated
//! instruction tree and the ids of its argument locals.

use vstd::prelude::*;
use crate::types::{copy_types, Indices, ModuleInfo};
use crate::err::{ErrorKind, ValError};
use crate::ir::{
    arena_wf, total_instrs, FunctionBuilder, Instr, InstrSeq,
};
use crate::ops::{BlockType, Operator};
use crate::validate::{arena_locals_ok, ifelse_match, op_nodes, Validator};
use crate::driver::validate_instruction;
use crate::step::{abs, abs_arena, spec_init, spec_parse, spec_run, spec_step};

verus! {

/// The node count the whole operator sequence accounts for.
pub open spec fn opcount(ops: Seq<(Operator, u32)>) -> int
    decreases ops.len(),
{
    if ops.len() == 0 {
        0
    } else {
        opcount(ops.drop_last()) + op_nodes(ops.last().0)
    }
}

/// The local id an instruction references, if any.
pub open spec fn spec_local_of(i: Instr) -> Option<usize> {
    match i {
        Instr::LocalGet(l) => Some(l),
        Instr::LocalSet(l) => Some(l),
        Instr::LocalTee(l) => Some(l),
        _ => None,
    }
}

/// The data segment id an instruction references, if any.
pub open spec fn spec_data_of(i: Instr) -> Option<usize> {
    match i {
        Instr::MemoryInit { data, .. } => Some(data),
        Instr::DataDrop(d) => Some(d),
        _ => None,
    }
}

/// Which kind of entity reference a collection pass gathers.
#[derive(Clone, Copy, Debug, PartialEq, Eq, Structural)]
pub enum RefKind {
    Locals,
    DataSegments,
}

/// The id of the given kind an instruction references, if any.
pub open spec fn key_of(kind: RefKind, i: Instr) -> Option<usize> {
    match kind {
        RefKind::Locals => spec_local_of(i),
        RefKind::DataSegments => spec_data_of(i),
    }
}

/// Whether the subtree rooted at sequence `s` — the sequence itself and
/// every sequence reachable from it through structured control
/// instructions — holds an instruction referencing `x`.
pub open spec fn seq_reaches_key(arena: Seq<InstrSeq>, s: int, kind: RefKind, x: usize) -> bool
    decreases arena.len() - s,
        when arena_wf(arena) && 0 <= s < arena.len()
{
    (exists|j: int|
        0 <= j < arena[s].instrs@.len()
            && key_of(kind, #[trigger] arena[s].instrs@[j].0) == Some(x)) || (exists|j: int, k: int|
        0 <= j < arena[s].instrs@.len()
            && 0 <= k < arena[s].instrs@[j].0.children().len()
            && seq_reaches_key(
            arena,
            (#[trigger] arena[s].instrs@[j].0.children()[k]) as int,
            kind,
            x,
        ))
}

/// Whether the instruction itself references `x`, or one of its nested
/// sequences reaches it.
pub open spec fn instr_reaches_key(arena: Seq<InstrSeq>, i: Instr, kind: RefKind, x: usize) -> bool {
    key_of(kind, i) == Some(x) || (exists|k: int|
        0 <= k < i.children().len()
            && seq_reaches_key(arena, (#[trigger] i.children()[k]) as int, kind, x))
}

/// A subtree reaches `x` exactly when one of its root's instructions
/// references it or leads to it.
pub proof fn lemma_seq_reaches_unfold(arena: Seq<InstrSeq>, s: int, kind: RefKind, x: usize)
    requires
        arena_wf(arena),
        0 <= s < arena.len(),
    ensures
        seq_reaches_key(arena, s, kind, x) <==> (exists|j: int|
            0 <= j < arena[s].instrs@.len()
                && instr_reaches_key(arena, #[trigger] arena[s].instrs@[j].0, kind, x)),
{
    if seq_reaches_key(arena, s, kind, x) {
        if exists|j: int|
            0 <= j < arena[s].instrs@.len()
                && key_of(kind, #[trigger] arena[s].instrs@[j].0) == Some(x) {
            let j = choose|j: int|
                0 <= j < arena[s].instrs@.len()
                    && key_of(kind, #[trigger] arena[s].instrs@[j].0) == Some(x);
            assert(instr_reaches_key(arena, arena[s].instrs@[j].0, kind, x));
        } else {
            let (j, k) = choose|j: int, k: int|
                0 <= j < arena[s].instrs@.len()
                    && 0 <= k < arena[s].instrs@[j].0.children().len()
                    && seq_reaches_key(
                    arena,
                    (#[trigger] arena[s].instrs@[j].0.children()[k]) as int,
                    kind,
                    x,
                );
            assert(instr_reaches_key(arena, arena[s].instrs@[j].0, kind, x));
        }
    }
    if exists|j: int|
        0 <= j < arena[s].instrs@.len()
            && instr_reaches_key(arena, #[trigger] arena[s].instrs@[j].0, kind, x) {
        let j = choose|j: int|
            0 <= j < arena[s].instrs@.len()
                && instr_reaches_key(arena, #[trigger] arena[s].instrs@[j].0, kind, x);
        let i = arena[s].instrs@[j].0;
        if key_of(kind, i) == Some(x) {
            assert(seq_reaches_key(arena, s, kind, x));
        } else {
            let k = choose|k: int|
                0 <= k < i.children().len()
                    && seq_reaches_key(arena, (#[trigger] i.children()[k]) as int, kind, x);
            assert(0 <= k < arena[s].instrs@[j].0.children().len()
                && seq_reaches_key(
                arena,
                (arena[s].instrs@[j].0.children()[k]) as int,
                kind,
                x,
            ));
            assert(seq_reaches_key(arena, s, kind, x));
        }
    }
}

/// A reachable reference comes from some instruction of the arena: the
/// reachable set is a subset of the arena-wide one.
pub proof fn lemma_reach_key_in_arena(arena: Seq<InstrSeq>, s: int, kind: RefKind, x: usize)
    requires
        arena_wf(arena),
        0 <= s < arena.len(),
        seq_reaches_key(arena, s, kind, x),
    ensures
        exists|s2: int, j: int|
            0 <= s2 < arena.len() && 0 <= j < arena[s2].instrs@.len()
                && key_of(kind, #[trigger] arena[s2].instrs@[j].0) == Some(x),
    decreases arena.len() - s,
{
    assert(crate::ir::seq_children_ok(arena[s], s, arena.len() as int));
    if exists|j: int|
        0 <= j < arena[s].instrs@.len()
            && key_of(kind, #[trigger] arena[s].instrs@[j].0) == Some(x) {
    } else {
        let (j, k) = choose|j: int, k: int|
            0 <= j < arena[s].instrs@.len()
                && 0 <= k < arena[s].instrs@[j].0.children().len()
                && seq_reaches_key(
                arena,
                (#[trigger] arena[s].instrs@[j].0.children()[k]) as int,
                kind,
                x,
            );
        assert(s < arena[s].instrs@[j].0.children()[k] < arena.len());
        lemma_reach_key_in_arena(arena, arena[s].instrs@[j].0.children()[k] as int, kind, x);
    }
}

/// Whether some instruction in the arena references the local `l`.
pub open spec fn arena_has_local(arena: Seq<InstrSeq>, l: usize) -> bool {
    exists|s: int, j: int|
        0 <= s < arena.len() && 0 <= j < arena[s].instrs@.len()
            && spec_local_of(#[trigger] arena[s].instrs@[j].0) == Some(l)
}

/// Whether some instruction in the arena references the data segment `d`.
pub open spec fn arena_has_data(arena: Seq<InstrSeq>, d: usize) -> bool {
    exists|s: int, j: int|
        0 <= s < arena.len() && 0 <= j < arena[s].instrs@.len()
            && spec_data_of(#[trigger] arena[s].instrs@[j].0) == Some(d)
}

/// A strictly increasing sequence: sorted, with no duplicates.
pub open spec fn strictly_sorted(s: Seq<usize>) -> bool {
    forall|i: int, j: int| 0 <= i < j < s.len() ==> s[i] < s[j]
}

/// The instruction total is never negative.
pub proof fn lemma_total_instrs_nonneg(arena: Seq<InstrSeq>)
    ensures
        total_instrs(arena) >= 0,
    decreases arena.len(),
{
    if arena.len() > 0 {
        lemma_total_instrs_nonneg(arena.drop_last());
    }
}

/// The instruction total over every prefix is bounded by the whole.
pub proof fn lemma_total_instrs_prefix_le(arena: Seq<InstrSeq>, k: int)
    requires
        0 <= k <= arena.len(),
    ensures
        total_instrs(arena.subrange(0, k)) <= total_instrs(arena),
        total_instrs(arena) >= 0,
    decreases arena.len() - k,
{
    lemma_total_instrs_nonneg(arena);
    if k == arena.len() {
        assert(arena.subrange(0, k) =~= arena);
    } else {
        lemma_total_instrs_prefix_le(arena, k + 1);
        let a1 = arena.subrange(0, k + 1);
        assert(a1.drop_last() =~= arena.subrange(0, k));
        assert(total_instrs(a1) == total_instrs(arena.subrange(0, k)) + a1.last().instrs@.len());
    }
}

/// Inserts a value into a strictly sorted vector, keeping it strictly
/// sorted; a value already present is left alone.
#[verifier::loop_isolation(false)]
fn insert_sorted(v: &mut Vec<usize>, x: usize)
    requires
        strictly_sorted(old(v)@),
    ensures
        strictly_sorted(final(v)@),
        forall|l: usize| final(v)@.contains(l) <==> (old(v)@.contains(l) || l == x),
{
    let mut i: usize = 0;
    while i < v.len() && v[i] < x
        invariant
            i <= v@.len(),
            forall|j: int| 0 <= j < i ==> v@[j] < x,
        decreases v@.len() - i,
    {
        i += 1;
    }
    if i < v.len() {
        let cur = v[i];
        if cur == x {
            proof {
                assert(v@.contains(x)) by {
                    assert(v@[i as int] == x);
                }
            }
            return;
        }
    }
    v.insert(i, x);
    proof {
        let s0 = old(v)@;
        let s1 = v@;
        assert forall|a: int, b: int| 0 <= a < b < s1.len() implies s1[a] < s1[b] by {
            if a < i && b < i {
            } else if a < i && b == i {
            } else if a < i && b > i {
                assert(s1[a] == s0[a] && s1[b] == s0[b - 1]);
                assert(s0[a] < x);
                if b - 1 == i {
                } else {
                    assert(s0[i as int] > x || s0[i as int] >= x);
                }
            } else if a == i {
                assert(s1[b] == s0[b - 1]);
                assert(b - 1 >= i);
                assert(s0[b - 1] >= s0[i as int] || b - 1 == i);
            } else {
                assert(s1[a] == s0[a - 1] && s1[b] == s0[b - 1]);
            }
        }
        assert forall|l: usize| s1.contains(l) implies (s0.contains(l) || l == x) by {
            let w = choose|w: int| 0 <= w < s1.len() && s1[w] == l;
            if w < i {
                assert(s0[w] == l);
            } else if w == i {
            } else {
                assert(s0[w - 1] == l);
            }
        }
        assert forall|l: usize| s0.contains(l) || l == x implies s1.contains(l) by {
            if l == x {
                assert(s1[i as int] == x);
            } else {
                let w = choose|w: int| 0 <= w < s0.len() && s0[w] == l;
                if w < i {
                    assert(s1[w] == l);
                } else {
                    assert(s1[w + 1] == l);
                }
            }
        }
    }
}

/// Collects into `used` the referenced ids of one instruction and of
/// every sequence nested inside it.
#[verifier::loop_isolation(false)]
fn collect_instr(
    arena: &Vec<InstrSeq>,
    lb: usize,
    kind: RefKind,
    instr: &Instr,
    used: &mut Vec<usize>,
)
    requires
        arena_wf(arena@),
        lb < arena@.len(),
        strictly_sorted(old(used)@),
        forall|k: int|
            0 <= k < instr.children().len()
                ==> (lb as int) < #[trigger] instr.children()[k] < arena@.len(),
    ensures
        strictly_sorted(final(used)@),
        forall|x: usize|
            final(used)@.contains(x)
                <==> (old(used)@.contains(x) || instr_reaches_key(arena@, *instr, kind, x)),
    decreases arena@.len() - lb, 0int,
{
    let keyo: Option<usize> = match kind {
        RefKind::Locals => match instr {
            Instr::LocalGet(l) => Some(*l),
            Instr::LocalSet(l) => Some(*l),
            Instr::LocalTee(l) => Some(*l),
            _ => None,
        },
        RefKind::DataSegments => match instr {
            Instr::MemoryInit { data, .. } => Some(*data),
            Instr::DataDrop(d) => Some(*d),
            _ => None,
        },
    };
    proof {
        assert(keyo == key_of(kind, *instr));
    }
    match keyo {
        Some(x) => {
            insert_sorted(used, x);
        }
        None => {}
    }
    match instr {
        Instr::Block(c) => {
            proof {
                assert(instr.children()[0] == *c);
            }
            collect_refs(arena, *c, kind, used);
            proof {
                assert forall|x: usize|
                    instr_reaches_key(arena@, *instr, kind, x)
                        implies (key_of(kind, *instr) == Some(x)
                            || seq_reaches_key(arena@, *c as int, kind, x)) by {}
                assert forall|x: usize| seq_reaches_key(arena@, *c as int, kind, x)
                    implies instr_reaches_key(arena@, *instr, kind, x) by {
                    assert(seq_reaches_key(arena@, (instr.children()[0]) as int, kind, x));
                }
            }
        }
        Instr::Loop(c) => {
            proof {
                assert(instr.children()[0] == *c);
            }
            collect_refs(arena, *c, kind, used);
            proof {
                assert forall|x: usize| seq_reaches_key(arena@, *c as int, kind, x)
                    implies instr_reaches_key(arena@, *instr, kind, x) by {
                    assert(seq_reaches_key(arena@, (instr.children()[0]) as int, kind, x));
                }
            }
        }
        Instr::IfElse { consequent, alternative } => {
            proof {
                assert(instr.children()[0] == *consequent);
                assert(instr.children()[1] == *alternative);
            }
            collect_refs(arena, *consequent, kind, used);
            collect_refs(arena, *alternative, kind, used);
            proof {
                assert forall|x: usize|
                    instr_reaches_key(arena@, *instr, kind, x)
                        implies (key_of(kind, *instr) == Some(x)
                            || seq_reaches_key(arena@, *consequent as int, kind, x)
                            || seq_reaches_key(arena@, *alternative as int, kind, x)) by {
                    if key_of(kind, *instr) != Some(x) {
                        let k = choose|k: int|
                            0 <= k < instr.children().len()
                                && seq_reaches_key(
                                arena@,
                                (#[trigger] instr.children()[k]) as int,
                                kind,
                                x,
                            );
                        assert(k == 0 || k == 1);
                    }
                }
                assert forall|x: usize|
                    seq_reaches_key(arena@, *consequent as int, kind, x)
                        || seq_reaches_key(arena@, *alternative as int, kind, x)
                        implies instr_reaches_key(arena@, *instr, kind, x) by {
                    if seq_reaches_key(arena@, *consequent as int, kind, x) {
                        assert(seq_reaches_key(arena@, (instr.children()[0]) as int, kind, x));
                    } else {
                        assert(seq_reaches_key(arena@, (instr.children()[1]) as int, kind, x));
                    }
                }
            }
        }
        _ => {
            proof {
                assert(instr.children().len() == 0);
            }
        }
    }
}

/// Collects into `used` every id of the given kind referenced in the
/// subtree rooted at sequence `s`.
#[verifier::loop_isolation(false)]
fn collect_refs(arena: &Vec<InstrSeq>, s: usize, kind: RefKind, used: &mut Vec<usize>)
    requires
        arena_wf(arena@),
        s < arena@.len(),
        strictly_sorted(old(used)@),
    ensures
        strictly_sorted(final(used)@),
        forall|x: usize|
            final(used)@.contains(x)
                <==> (old(used)@.contains(x) || seq_reaches_key(arena@, s as int, kind, x)),
    decreases arena@.len() - s, 1int,
{
    let q = &arena[s];
    let mut j: usize = 0;
    while j < q.instrs.len()
        invariant
            j <= q.instrs@.len(),
            q == &arena@[s as int],
            strictly_sorted(used@),
            forall|x: usize|
                used@.contains(x)
                    <==> (old(used)@.contains(x) || exists|j2: int|
                        0 <= j2 < j && #[trigger] instr_reaches_key(
                            arena@,
                            arena@[s as int].instrs@[j2].0,
                            kind,
                            x,
                        )),
        decreases q.instrs@.len() - j,
    {
        proof {
            assert(crate::ir::seq_children_ok(
                arena@[s as int],
                s as int,
                arena@.len() as int,
            ));
        }
        let ghost pre = used@;
        collect_instr(arena, s, kind, &q.instrs[j].0, used);
        j += 1;
        proof {
            assert forall|x: usize|
                used@.contains(x) implies (old(used)@.contains(x) || exists|j2: int|
                    0 <= j2 < j && #[trigger] instr_reaches_key(
                        arena@,
                        arena@[s as int].instrs@[j2].0,
                        kind,
                        x,
                    )) by {
                if !old(used)@.contains(x) {
                    if pre.contains(x) {
                    } else {
                        assert(instr_reaches_key(
                            arena@,
                            arena@[s as int].instrs@[j - 1].0,
                            kind,
                            x,
                        ));
                    }
                }
            }
        }
    }
    proof {
        assert forall|x: usize|
            seq_reaches_key(arena@, s as int, kind, x) implies used@.contains(x) by {
            lemma_seq_reaches_unfold(arena@, s as int, kind, x);
            let j2 = choose|j2: int|
                0 <= j2 < arena@[s as int].instrs@.len()
                    && #[trigger] instr_reaches_key(
                    arena@,
                    arena@[s as int].instrs@[j2].0,
                    kind,
                    x,
                );
        }
        assert forall|x: usize|
            used@.contains(x) && !old(used)@.contains(x)
                implies seq_reaches_key(arena@, s as int, kind, x) by {
            lemma_seq_reaches_unfold(arena@, s as int, kind, x);
        }
    }
}

/// A function defined locally within the module.
#[derive(Debug)]
pub struct LocalFunction {
    /// The function's instruction sequences and entry point.
    pub builder: FunctionBuilder,
    /// The ids of the locals holding the function's arguments.
    pub args: Vec<usize>,
}

impl LocalFunction {
    /// A well-formed function: the entry sequence exists and every
    /// structured child reference points forward into the arena.
    pub open spec fn wf(self) -> bool {
        &&& self.builder.entry is Some
        &&& self.builder.entry->Some_0 < self.builder.arena@.len()
        &&& arena_wf(self.builder.arena@)
    }

    /// Creates a new definition of a local function from its components.
    pub fn new(args: Vec<usize>, builder: FunctionBuilder) -> (r: LocalFunction)
        ensures
            r.builder == builder,
            r.args == args,
    {
        LocalFunction { args, builder }
    }

    /// Validates the given decoded function body and constructs the
    /// instruction tree at the same time.  `ops` is the body's operator
    /// sequence, each operator with its source byte offset; `ty` is the
    /// function's type id, `args` the ids of its argument locals.
    #[verifier::loop_isolation(false)]
    pub fn parse(
        module: &ModuleInfo,
        indices: &Indices,
        id: usize,
        ty: usize,
        args: Vec<usize>,
        ops: &Vec<(Operator, u32)>,
    ) -> (r: Result<LocalFunction, ValError>)
        requires
            module.wf(),
            indices.wf(*module),
            ty < module.types@.len(),
            id < module.funcs@.len(),
        ensures
            r is Ok ==> ({
                let f = r->Ok_0;
                &&& f.wf()
                &&& f.builder.ty == ty
                &&& f.builder.entry == Some(0usize)
                &&& f.args == args
                &&& arena_locals_ok(f.builder.arena@, module.locals@.len() as int)
                &&& total_instrs(f.builder.arena@) == opcount(ops@)
                &&& ops@.len() >= 1 && ops@.last().0 is End
            }),
            ops@.len() == 0 ==> r is Err && r->Err_0.kind == ErrorKind::UnexpectedEof,
            ({
                let sp = spec_parse(*module, *indices, id as int, ty, ops@);
                &&& (r is Ok <==> sp is Ok)
                &&& (r is Err ==> r->Err_0 == sp->Err_0)
                &&& (r is Ok ==> abs_arena(r->Ok_0.builder.arena@) == sp->Ok_0.arena)
            }),
    {
        let ghost eof_off: u32 = if ops@.len() == 0 {
            0u32
        } else {
            ops@.last().1
        };
        let mut st = Validator::new();
        let results = copy_types(&module.types[ty].results);
        let entry = st.push_control_entry(BlockType::Empty, results);
        proof {
            assert(ops@.subrange(0, 0) =~= Seq::<(Operator, u32)>::empty());
            assert(Seq::<InstrSeq>::empty().push(st.arena@[0]).drop_last()
                =~= Seq::<InstrSeq>::empty());
            assert(st.arena@ =~= Seq::<InstrSeq>::empty().push(st.arena@[0]));
            assert(total_instrs(st.arena@) == 0);
            assert(st.controls@.drop_last() =~= Seq::<crate::validate::Frame>::empty());
            assert(ifelse_match(
                Seq::<crate::validate::Frame>::empty(),
                st.if_else@,
                st.arena@.len() as int,
            ));
            assert(ifelse_match(st.controls@, st.if_else@, st.arena@.len() as int));
            assert(abs(st) =~~= spec_init(*module, ty));
            assert(ops@.skip(0) =~= ops@);
        }
        let mut i: usize = 0;
        while i < ops.len()
            invariant
                st.wf(),
                st.arena@.len() >= 1,
                i <= ops@.len(),
                total_instrs(st.arena@) + st.if_else@.len()
                    == opcount(ops@.subrange(0, i as int)),
                arena_locals_ok(st.arena@, module.locals@.len() as int),
                st.controls@.len() == 0 ==> (i > 0 && ops@[i - 1].0 is End),
                spec_run(*module, *indices, id as int, abs(st), ops@.skip(i as int), eof_off)
                    == spec_parse(*module, *indices, id as int, ty, ops@),
            decreases ops@.len() - i,
        {
            proof {
                assert(ops@.skip(i as int)[0] == ops@[i as int]);
                assert(ops@.skip(i as int).drop_first() =~= ops@.skip(i as int + 1));
            }
            if st.controls.len() == 0 {
                return Err(ValError { kind: ErrorKind::MalformedOperator, offset: ops[i].1 });
            }
            let loc = ops[i].1;
            let ghost pre_arena = st.arena@;
            let ghost pre_ifelse = st.if_else@.len() as int;
            match validate_instruction(&mut st, module, indices, id, &ops[i].0, loc) {
                Ok(()) => {}
                Err(k) => {
                    return Err(ValError { kind: k, offset: loc });
                }
            }
            i += 1;
            proof {
                let p = ops@.subrange(0, i as int);
                assert(p.drop_last() =~= ops@.subrange(0, i as int - 1));
                assert(p.last() == ops@[i as int - 1]);
            }
        }
        proof {
            assert(ops@.skip(ops@.len() as int) =~= Seq::<(Operator, u32)>::empty());
        }
        if st.controls.len() != 0 {
            let offset = if ops.len() > 0 {
                ops[ops.len() - 1].1
            } else {
                0
            };
            return Err(ValError { kind: ErrorKind::UnexpectedEof, offset });
        }
        proof {
            assert(ops@.subrange(0, ops@.len() as int) =~= ops@);
            assert(ifelse_match(st.controls@, st.if_else@, st.arena@.len() as int));
            assert(st.if_else@.len() == 0);
        }
        Ok(LocalFunction {
            builder: FunctionBuilder { ty, arena: st.arena, entry: Some(entry) },
            args,
        })
    }

    /// Get this function's type id.
    pub fn ty(&self) -> (r: usize)
        ensures
            r == self.builder.ty,
    {
        self.builder.ty
    }

    /// Get the id of this function's entry block.
    pub fn entry_block(&self) -> (r: usize)
        requires
            self.builder.entry is Some,
        ensures
            r == self.builder.entry->Some_0,
    {
        match self.builder.entry {
            Some(e) => e,
            None => {
                proof {
                    assert(false);
                }
                0
            }
        }
    }

    /// Get the block associated with the given id.
    pub fn block(&self, id: usize) -> (r: &InstrSeq)
        requires
            id < self.builder.arena@.len(),
        ensures
            *r == self.builder.arena@[id as int],
    {
        &self.builder.arena[id]
    }

    /// Get access to a builder to continue adding instructions to this
    /// function.
    pub fn builder(&self) -> (r: &FunctionBuilder)
        ensures
            *r == self.builder,
    {
        &self.builder
    }

    /// Allocates a fresh, empty block in this function's arena and
    /// returns its id.
    pub fn add_block(&mut self, ty: BlockType) -> (r: usize)
        requires
            old(self).wf(),
        ensures
            final(self).wf(),
            r == old(self).builder.arena@.len(),
            final(self).builder.arena@.len() == old(self).builder.arena@.len() + 1,
            forall|i: int| 0 <= i < old(self).builder.arena@.len()
                ==> final(self).builder.arena@[i] == old(self).builder.arena@[i],
            final(self).builder.arena@[r as int].ty == ty,
            final(self).builder.arena@[r as int].instrs@.len() == 0,
            final(self).builder.ty == old(self).builder.ty,
            final(self).builder.entry == old(self).builder.entry,
            final(self).args == old(self).args,
    {
        let id = self.builder.arena.len();
        self.builder.arena.push(InstrSeq { ty, instrs: Vec::new() });
        proof {
            assert forall|s: int| 0 <= s < self.builder.arena@.len()
                implies crate::ir::seq_children_ok(
                    #[trigger] self.builder.arena@[s],
                    s,
                    self.builder.arena@.len() as int,
                ) by {
                if s < old(self).builder.arena@.len() {
                    assert(crate::ir::seq_children_ok(
                        old(self).builder.arena@[s],
                        s,
                        old(self).builder.arena@.len() as int,
                    ));
                }
            }
        }
        id
    }

    /// Get the size of this function, in number of instructions across
    /// all of its sequences.
    #[verifier::loop_isolation(false)]
    pub fn size(&self) -> (r: u64)
        requires
            total_instrs(self.builder.arena@) <= u64::MAX,
        ensures
            r as int == total_instrs(self.builder.arena@),
    {
        let mut total: u64 = 0;
        let mut i: usize = 0;
        proof {
            assert(self.builder.arena@.subrange(0, 0) =~= Seq::<InstrSeq>::empty());
        }
        while i < self.builder.arena.len()
            invariant
                i <= self.builder.arena@.len(),
                total as int == total_instrs(self.builder.arena@.subrange(0, i as int)),
            decreases self.builder.arena@.len() - i,
        {
            proof {
                lemma_total_instrs_prefix_le(self.builder.arena@, i as int + 1);
                let p = self.builder.arena@.subrange(0, i as int + 1);
                assert(p.drop_last() =~= self.builder.arena@.subrange(0, i as int));
                assert(p.last() == self.builder.arena@[i as int]);
            }
            let n = self.builder.arena[i].instrs.len();
            total = total + n as u64;
            i += 1;
        }
        proof {
            assert(self.builder.arena@.subrange(0, self.builder.arena@.len() as int)
                =~= self.builder.arena@);
        }
        total
    }

    /// Is this function's body a constant instruction sequence per the
    /// Wasm constant-expression rules?  Only the entry sequence is
    /// inspected.
    #[verifier::loop_isolation(false)]
    pub fn is_const(&self) -> (r: bool)
        requires
            self.wf(),
        ensures
            r <==> ({
                let entry = self.builder.arena@[self.builder.entry->Some_0 as int];
                forall|j: int| 0 <= j < entry.instrs@.len()
                    ==> (#[trigger] entry.instrs@[j].0).spec_is_const()
            }),
    {
        let e = self.entry_block();
        let seq = &self.builder.arena[e];
        let mut j: usize = 0;
        while j < seq.instrs.len()
            invariant
                j <= seq.instrs@.len(),
                forall|k: int| 0 <= k < j ==> (#[trigger] seq.instrs@[k].0).spec_is_const(),
            decreases seq.instrs@.len() - j,
        {
            if !seq.instrs[j].0.is_const() {
                return false;
            }
            j += 1;
        }
        true
    }

    /// Collect the ids of the locals this function references, as a
    /// strictly sorted vector.  Only sequences reachable from the entry
    /// block through structured control instructions are inspected.
    pub fn used_locals(&self) -> (r: Vec<usize>)
        requires
            self.wf(),
        ensures
            strictly_sorted(r@),
            forall|l: usize| r@.contains(l) <==> seq_reaches_key(
                self.builder.arena@,
                self.builder.entry->Some_0 as int,
                RefKind::Locals,
                l,
            ),
    {
        let e = self.entry_block();
        let mut used: Vec<usize> = Vec::new();
        collect_refs(&self.builder.arena, e, RefKind::Locals, &mut used);
        used
    }

    /// Collect the set of data segments that are used in this function
    /// via `memory.init` or `data.drop` instructions, as a strictly
    /// sorted vector of ids.  Only sequences reachable from the entry
    /// block through structured control instructions are inspected.
    pub fn used_data_segments(&self) -> (r: Vec<usize>)
        requires
            self.wf(),
        ensures
            strictly_sorted(r@),
            forall|d: usize| r@.contains(d) <==> seq_reaches_key(
                self.builder.arena@,
                self.builder.entry->Some_0 as int,
                RefKind::DataSegments,
                d,
            ),
    {
        let e = self.entry_block();
        let mut used: Vec<usize> = Vec::new();
        collect_refs(&self.builder.arena, e, RefKind::DataSegments, &mut used);
        used
    }
}

} // verus!
