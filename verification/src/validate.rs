//! The validation state: the operand stack with its polymorphic entries,
//! the control stack of active frames, the if/else staging stack, and the
//! arena being populated.

use vstd::prelude::*;
use crate::types::{ModuleInfo, ValType};
use crate::err::ErrorKind;
use crate::ir::{arena_wf, seq_children_ok, total_instrs, Instr, InstrSeq};
use crate::ops::{BlockType, Operator};

verus! {

/// What kind of structured block a control frame belongs to.
#[derive(Clone, Copy, Debug, PartialEq, Eq, Structural)]
pub enum BlockKind {
    FunctionEntry,
    Block,
    Loop,
    If,
    Else,
}

/// One active control frame.
#[derive(Debug)]
pub struct Frame {
    pub kind: BlockKind,
    /// The block's parameter types.
    pub start_types: Vec<ValType>,
    /// The block's result types.
    pub end_types: Vec<ValType>,
    /// The operand-stack depth at frame entry; pops in a reachable frame
    /// must not go below it.
    pub height: usize,
    /// Whether the rest of the frame is statically dead.
    pub unreachable: bool,
    /// The id of the instruction sequence the frame populates.
    pub block: usize,
}

impl Frame {
    /// The types a branch to this frame expects: the parameters for a
    /// `loop`, the results for every other kind.
    pub open spec fn spec_label_types(self) -> Seq<ValType> {
        if self.kind == BlockKind::Loop {
            self.start_types@
        } else {
            self.end_types@
        }
    }
}

/// One pending `if`: the consequent's sequence id, and the alternative's
/// once an `else` has been seen.
#[derive(Clone, Copy, Debug, PartialEq, Eq, Structural)]
pub struct IfElseState {
    pub consequent: usize,
    pub alternative: Option<usize>,
}

/// An operand-stack entry: a concrete value type, or `None`, the
/// polymorphic sentinel that unifies with anything inside an unreachable
/// region.
pub open spec fn compat(actual: Option<ValType>, expected: Option<ValType>) -> bool {
    actual is None || expected is None || actual == expected
}

/// The more concrete of an actual entry and an expectation.
pub open spec fn unified(actual: Option<ValType>, expected: Option<ValType>) -> Option<ValType> {
    if actual is None {
        expected
    } else {
        actual
    }
}

/// One checked pop from the operand stack of a frame with height
/// `height` and reachability `!unr`: at the height, an unreachable frame
/// fabricates the sentinel and a reachable one underflows; above it the
/// top entry must unify with the expectation.
pub open spec fn spec_pop(
    stack: Seq<Option<ValType>>,
    height: int,
    unr: bool,
    expected: Option<ValType>,
) -> Result<(Seq<Option<ValType>>, Option<ValType>), ErrorKind> {
    if stack.len() <= height {
        if unr {
            Ok((stack, expected))
        } else {
            Err(ErrorKind::StackUnderflow)
        }
    } else {
        if compat(stack.last(), expected) {
            Ok((stack.drop_last(), unified(stack.last(), expected)))
        } else {
            Err(ErrorKind::TypeMismatch)
        }
    }
}

/// Checked pops of a whole type vector, last expected type popped first.
pub open spec fn spec_pop_many(
    stack: Seq<Option<ValType>>,
    height: int,
    unr: bool,
    expected: Seq<ValType>,
) -> Result<Seq<Option<ValType>>, ErrorKind>
    decreases expected.len(),
{
    if expected.len() == 0 {
        Ok(stack)
    } else {
        match spec_pop(stack, height, unr, Some(expected.last())) {
            Ok(p) => spec_pop_many(p.0, height, unr, expected.drop_last()),
            Err(k) => Err(k),
        }
    }
}

/// A successful `spec_pop_many` leaves a prefix of the stack, never
/// shorter than the frame height.
pub proof fn lemma_pop_many_prefix(
    stack: Seq<Option<ValType>>,
    height: int,
    unr: bool,
    expected: Seq<ValType>,
)
    requires
        0 <= height <= stack.len(),
        spec_pop_many(stack, height, unr, expected) is Ok,
    ensures
        ({
            let s2 = spec_pop_many(stack, height, unr, expected)->Ok_0;
            &&& height <= s2.len() <= stack.len()
            &&& s2 == stack.subrange(0, s2.len() as int)
        }),
    decreases expected.len(),
{
    if expected.len() == 0 {
        assert(stack.subrange(0, stack.len() as int) =~= stack);
    } else {
        let p = spec_pop(stack, height, unr, Some(expected.last()))->Ok_0;
        lemma_pop_many_prefix(p.0, height, unr, expected.drop_last());
        let s2 = spec_pop_many(stack, height, unr, expected)->Ok_0;
        if stack.len() <= height {
            assert(p.0 == stack);
        } else {
            assert(p.0 == stack.drop_last());
            assert(p.0 =~= stack.subrange(0, stack.len() - 1));
            assert(s2 == p.0.subrange(0, s2.len() as int));
            assert(s2 =~= stack.subrange(0, s2.len() as int));
        }
    }
}

/// A failed `spec_pop_many` reports an underflow or a type mismatch,
/// never another kind.
pub proof fn lemma_pop_many_err_kinds(
    stack: Seq<Option<ValType>>,
    height: int,
    unr: bool,
    expected: Seq<ValType>,
)
    requires
        spec_pop_many(stack, height, unr, expected) is Err,
    ensures
        spec_pop_many(stack, height, unr, expected)->Err_0 == ErrorKind::StackUnderflow
            || spec_pop_many(stack, height, unr, expected)->Err_0 == ErrorKind::TypeMismatch,
    decreases expected.len(),
{
    if expected.len() > 0 {
        match spec_pop(stack, height, unr, Some(expected.last())) {
            Ok(p) => {
                lemma_pop_many_err_kinds(p.0, height, unr, expected.drop_last());
            }
            Err(_) => {}
        }
    }
}

/// Unreachable polymorphism: after a terminator operator marks a frame
/// unreachable and truncates its stack to the frame height, a checked
/// pop succeeds for every demanded type vector — the rest of the frame
/// type-checks against anything.
pub proof fn lemma_unreachable_pops_any(
    stack: Seq<Option<ValType>>,
    height: int,
    expected: Seq<ValType>,
)
    requires
        0 <= height,
        stack.len() == height,
    ensures
        spec_pop_many(stack, height, true, expected) is Ok,
        spec_pop_many(stack, height, true, expected)->Ok_0 == stack,
    decreases expected.len(),
{
    if expected.len() > 0 {
        lemma_unreachable_pops_any(stack, height, expected.drop_last());
    }
}

/// A type vector pushed onto the stack, left to right, as concrete
/// entries.
pub open spec fn push_tys(stack: Seq<Option<ValType>>, tys: Seq<ValType>) -> Seq<Option<ValType>> {
    stack + Seq::new(tys.len(), |i: int| Some(tys[i]))
}

/// The if/else staging stack mirrors the currently-open `if` and `else`
/// frames, innermost last: an open `if` frame owns the last entry's
/// consequent; an open `else` frame owns its alternative, and the
/// consequent it kept from the `if` lies between the parent's sequence
/// and the end of the arena.
pub open spec fn ifelse_match(
    controls: Seq<Frame>,
    entries: Seq<IfElseState>,
    alen: int,
) -> bool
    decreases controls.len(),
{
    if controls.len() == 0 {
        entries.len() == 0
    } else {
        let f = controls.last();
        if f.kind == BlockKind::If || f.kind == BlockKind::Else {
            &&& entries.len() >= 1
            &&& (f.kind == BlockKind::If ==> entries.last().consequent == f.block
                    && entries.last().alternative is None)
            &&& (f.kind == BlockKind::Else ==> {
                    &&& entries.last().alternative == Some(f.block)
                    &&& entries.last().consequent < alen
                    &&& controls.len() >= 2
                    &&& controls[controls.len() - 2].block < entries.last().consequent
                })
            &&& ifelse_match(controls.drop_last(), entries.drop_last(), alen)
        } else {
            ifelse_match(controls.drop_last(), entries, alen)
        }
    }
}

/// `ifelse_match` is monotone in the arena length.
pub proof fn lemma_ifelse_match_grow(
    controls: Seq<Frame>,
    entries: Seq<IfElseState>,
    a1: int,
    a2: int,
)
    requires
        ifelse_match(controls, entries, a1),
        a1 <= a2,
    ensures
        ifelse_match(controls, entries, a2),
    decreases controls.len(),
{
    if controls.len() > 0 {
        let f = controls.last();
        if f.kind == BlockKind::If || f.kind == BlockKind::Else {
            lemma_ifelse_match_grow(controls.drop_last(), entries.drop_last(), a1, a2);
        } else {
            lemma_ifelse_match_grow(controls.drop_last(), entries, a1, a2);
        }
    }
}

/// `ifelse_match` only reads each frame's kind and block id.
pub proof fn lemma_ifelse_match_same(
    c1: Seq<Frame>,
    c2: Seq<Frame>,
    entries: Seq<IfElseState>,
    alen: int,
)
    requires
        ifelse_match(c1, entries, alen),
        c1.len() == c2.len(),
        forall|i: int| 0 <= i < c1.len()
            ==> (#[trigger] c2[i]).kind == c1[i].kind && c2[i].block == c1[i].block,
    ensures
        ifelse_match(c2, entries, alen),
    decreases c1.len(),
{
    if c1.len() > 0 {
        let f1 = c1.last();
        let f2 = c2.last();
        assert(c1.drop_last().len() == c2.drop_last().len());
        assert(forall|i: int| 0 <= i < c1.drop_last().len()
            ==> (#[trigger] c2.drop_last()[i]).kind == c1.drop_last()[i].kind
                && c2.drop_last()[i].block == c1.drop_last()[i].block);
        if f1.kind == BlockKind::If || f1.kind == BlockKind::Else {
            lemma_ifelse_match_same(c1.drop_last(), c2.drop_last(), entries.drop_last(), alen);
        } else {
            lemma_ifelse_match_same(c1.drop_last(), c2.drop_last(), entries, alen);
        }
    }
}

/// All local ids referenced anywhere in the arena lie below `n`.
pub open spec fn arena_locals_ok(arena: Seq<InstrSeq>, n: int) -> bool {
    forall|s: int, j: int, k: int|
        0 <= s < arena.len() && 0 <= j < arena[s].instrs@.len()
            && 0 <= k < arena[s].instrs@[j].0.local_ids().len()
            ==> #[trigger] arena[s].instrs@[j].0.local_ids()[k] < n
}

/// The whole mutable state of one function's validation: the operand
/// stack, the control stack, the if/else staging stack, and the arena of
/// instruction sequences being populated.
#[derive(Debug)]
pub struct Validator {
    pub operands: Vec<Option<ValType>>,
    pub controls: Vec<Frame>,
    pub if_else: Vec<IfElseState>,
    pub arena: Vec<InstrSeq>,
}

impl Validator {
    /// The top control frame.
    pub open spec fn top(self) -> Frame {
        self.controls@.last()
    }

    /// Stack-shape well-formedness: frame heights are bounded by the
    /// operand stack and monotone; frame sequence ids point into the
    /// arena and grow up the stack; the function-entry frame sits at the
    /// bottom and only there; the arena is a forward-reference tree.
    pub open spec fn stacks_wf(self) -> bool {
        &&& forall|i: int| 0 <= i < self.controls@.len()
                ==> (#[trigger] self.controls@[i]).height <= self.operands@.len()
        &&& forall|i: int, j: int| 0 <= i < j < self.controls@.len()
                ==> (#[trigger] self.controls@[i]).height <= (#[trigger] self.controls@[j]).height
        &&& forall|i: int| 0 <= i < self.controls@.len()
                ==> (#[trigger] self.controls@[i]).block < self.arena@.len()
        &&& forall|i: int, j: int| 0 <= i < j < self.controls@.len()
                ==> (#[trigger] self.controls@[i]).block < (#[trigger] self.controls@[j]).block
        &&& (self.controls@.len() > 0 ==> self.controls@[0].kind == BlockKind::FunctionEntry)
        &&& forall|i: int| 0 < i < self.controls@.len()
                ==> (#[trigger] self.controls@[i]).kind != BlockKind::FunctionEntry
        &&& arena_wf(self.arena@)
    }

    /// Full well-formedness: stack shape plus the if/else invariant.
    pub open spec fn wf(self) -> bool {
        &&& self.stacks_wf()
        &&& ifelse_match(self.controls@, self.if_else@, self.arena@.len() as int)
    }

    /// A fresh, empty validation state.
    pub fn new() -> (r: Validator)
        ensures
            r.operands@.len() == 0,
            r.controls@.len() == 0,
            r.if_else@.len() == 0,
            r.arena@.len() == 0,
            r.wf(),
    {
        Validator {
            operands: Vec::new(),
            controls: Vec::new(),
            if_else: Vec::new(),
            arena: Vec::new(),
        }
    }

    /// Pushes one operand entry (a concrete type, or the sentinel).
    pub fn push_operand(&mut self, t: Option<ValType>)
        requires
            old(self).stacks_wf(),
        ensures
            final(self).stacks_wf(),
            final(self).operands@ == old(self).operands@.push(t),
            final(self).controls == old(self).controls,
            final(self).if_else == old(self).if_else,
            final(self).arena == old(self).arena,
    {
        self.operands.push(t);
    }

    /// One checked pop against an optional expectation; the state is
    /// unchanged when the pop fails.
    pub fn pop_expected(&mut self, expected: Option<ValType>) -> (r: Result<
        Option<ValType>,
        ErrorKind,
    >)
        requires
            old(self).stacks_wf(),
            old(self).controls@.len() >= 1,
        ensures
            final(self).stacks_wf(),
            final(self).controls == old(self).controls,
            final(self).if_else == old(self).if_else,
            final(self).arena == old(self).arena,
            ({
                let sp = spec_pop(
                    old(self).operands@,
                    old(self).top().height as int,
                    old(self).top().unreachable,
                    expected,
                );
                &&& (r is Ok <==> sp is Ok)
                &&& (r is Ok ==> final(self).operands@ == sp->Ok_0.0 && r->Ok_0 == sp->Ok_0.1)
                &&& (r is Err ==> final(self).operands@ == old(self).operands@
                        && r->Err_0 == sp->Err_0)
            }),
    {
        let n = self.controls.len();
        let h = self.controls[n - 1].height;
        let unr = self.controls[n - 1].unreachable;
        if self.operands.len() <= h {
            if unr {
                Ok(expected)
            } else {
                Err(ErrorKind::StackUnderflow)
            }
        } else {
            let actual = self.operands[self.operands.len() - 1];
            let ok = match (actual, expected) {
                (Some(a), Some(e)) => a == e,
                _ => true,
            };
            if ok {
                let popped = self.operands.pop();
                match (popped, expected) {
                    (Some(a), e) => {
                        if a.is_some() {
                            Ok(a)
                        } else {
                            Ok(e)
                        }
                    }
                    (None, _) => Err(ErrorKind::StackUnderflow),
                }
            } else {
                Err(ErrorKind::TypeMismatch)
            }
        }
    }

    /// One unchecked-expectation pop.
    pub fn pop_operand(&mut self) -> (r: Result<Option<ValType>, ErrorKind>)
        requires
            old(self).stacks_wf(),
            old(self).controls@.len() >= 1,
        ensures
            final(self).stacks_wf(),
            final(self).controls == old(self).controls,
            final(self).if_else == old(self).if_else,
            final(self).arena == old(self).arena,
            ({
                let sp = spec_pop(
                    old(self).operands@,
                    old(self).top().height as int,
                    old(self).top().unreachable,
                    None,
                );
                &&& (r is Ok <==> sp is Ok)
                &&& (r is Ok ==> final(self).operands@ == sp->Ok_0.0 && r->Ok_0 == sp->Ok_0.1)
                &&& (r is Err ==> final(self).operands@ == old(self).operands@
                        && r->Err_0 == sp->Err_0)
            }),
    {
        self.pop_expected(None)
    }

    /// Pops a whole type vector, in reverse order, unifying each entry.
    #[verifier::loop_isolation(false)]
    pub fn pop_operands(&mut self, expected: &Vec<ValType>) -> (r: Result<(), ErrorKind>)
        requires
            old(self).stacks_wf(),
            old(self).controls@.len() >= 1,
        ensures
            final(self).stacks_wf(),
            final(self).controls == old(self).controls,
            final(self).if_else == old(self).if_else,
            final(self).arena == old(self).arena,
            ({
                let sp = spec_pop_many(
                    old(self).operands@,
                    old(self).top().height as int,
                    old(self).top().unreachable,
                    expected@,
                );
                &&& (r is Ok <==> sp is Ok)
                &&& (r is Ok ==> final(self).operands@ == sp->Ok_0)
                &&& (r is Err ==> r->Err_0 == sp->Err_0)
            }),
    {
        let ghost h = self.top().height as int;
        let ghost unr = self.top().unreachable;
        let ghost stack0 = self.operands@;
        proof {
            assert(expected@.subrange(0, expected@.len() as int) =~= expected@);
        }
        let mut i: usize = expected.len();
        while i > 0
            invariant
                self.stacks_wf(),
                self.controls@.len() >= 1,
                self.controls == old(self).controls,
                self.if_else == old(self).if_else,
                self.arena == old(self).arena,
                i <= expected@.len(),
                h == self.top().height as int,
                unr == self.top().unreachable,
                spec_pop_many(stack0, h, unr, expected@)
                    == spec_pop_many(self.operands@, h, unr, expected@.subrange(0, i as int)),
            decreases i,
        {
            let ghost pre = self.operands@;
            let t = expected[i - 1];
            let res = self.pop_expected(Some(t));
            proof {
                let e = expected@.subrange(0, i as int);
                assert(e.last() == expected@[i - 1]);
                assert(e.drop_last() =~= expected@.subrange(0, i as int - 1));
            }
            match res {
                Ok(_) => {}
                Err(k) => {
                    proof {
                        let e = expected@.subrange(0, i as int);
                        assert(self.operands@ == pre);
                        assert(spec_pop(pre, h, unr, Some(expected@[i - 1])) is Err);
                        assert(e.last() == expected@[i - 1]);
                        assert(spec_pop_many(pre, h, unr, e) is Err);
                        assert(spec_pop_many(pre, h, unr, e)->Err_0 == k);
                        assert(spec_pop_many(stack0, h, unr, expected@)
                            == spec_pop_many(pre, h, unr, e));
                    }
                    return Err(k);
                }
            }
            i = i - 1;
        }
        proof {
            assert(expected@.subrange(0, 0) =~= Seq::<ValType>::empty());
        }
        Ok(())
    }

    /// Pushes a type vector left to right, as concrete entries.
    pub fn push_operands(&mut self, tys: &Vec<ValType>)
        requires
            old(self).stacks_wf(),
        ensures
            final(self).stacks_wf(),
            final(self).controls == old(self).controls,
            final(self).if_else == old(self).if_else,
            final(self).arena == old(self).arena,
            final(self).operands@ == push_tys(old(self).operands@, tys@),
    {
        let mut i: usize = 0;
        while i < tys.len()
            invariant
                self.stacks_wf(),
                self.controls == old(self).controls,
                self.if_else == old(self).if_else,
                self.arena == old(self).arena,
                i <= tys@.len(),
                self.operands@ == push_tys(old(self).operands@, tys@.subrange(0, i as int)),
            decreases tys.len() - i,
        {
            let t = tys[i];
            self.push_operand(Some(t));
            i += 1;
            proof {
                assert(self.operands@ =~= push_tys(old(self).operands@, tys@.subrange(0, i as int)));
            }
        }
        proof {
            assert(tys@.subrange(0, tys@.len() as int) =~= tys@);
        }
    }

    /// Opens a structured block: allocates a fresh sequence for it,
    /// pushes its frame with the current height, and pushes the block's
    /// parameters back for its body to consume.
    pub fn push_control(
        &mut self,
        kind: BlockKind,
        bt: BlockType,
        start: Vec<ValType>,
        end: Vec<ValType>,
    ) -> (r: usize)
        requires
            old(self).stacks_wf(),
            old(self).controls@.len() >= 1,
            kind != BlockKind::FunctionEntry,
        ensures
            final(self).stacks_wf(),
            final(self).if_else == old(self).if_else,
            r == old(self).arena@.len(),
            final(self).arena@.len() == old(self).arena@.len() + 1,
            forall|i: int| 0 <= i < old(self).arena@.len()
                ==> final(self).arena@[i] == old(self).arena@[i],
            final(self).arena@[r as int].ty == bt,
            final(self).arena@[r as int].instrs@.len() == 0,
            total_instrs(final(self).arena@) == total_instrs(old(self).arena@),
            final(self).controls@.len() == old(self).controls@.len() + 1,
            forall|i: int| 0 <= i < old(self).controls@.len()
                ==> final(self).controls@[i] == old(self).controls@[i],
            final(self).top().kind == kind,
            final(self).top().block == r,
            final(self).top().height == old(self).operands@.len(),
            final(self).top().unreachable == false,
            final(self).top().start_types@ == start@,
            final(self).top().end_types@ == end@,
            final(self).operands@ == push_tys(old(self).operands@, start@),
    {
        let id = self.arena.len();
        self.arena.push(InstrSeq { ty: bt, instrs: Vec::new() });
        proof {
            crate::ir::lemma_total_instrs_push_empty(
                old(self).arena@,
                self.arena@.last(),
            );
            assert(self.arena@.drop_last() =~= old(self).arena@);
            assert forall|s: int| 0 <= s < self.arena@.len()
                implies seq_children_ok(#[trigger] self.arena@[s], s, self.arena@.len() as int) by {
                if s < old(self).arena@.len() {
                    assert(seq_children_ok(old(self).arena@[s], s, old(self).arena@.len() as int));
                }
            }
        }
        let h = self.operands.len();
        self.push_operands(&start);
        self.controls.push(Frame {
            kind,
            start_types: start,
            end_types: end,
            height: h,
            unreachable: false,
            block: id,
        });
        id
    }

    /// Allocates a fresh, empty sequence without opening a frame: the
    /// synthesised empty alternative of an `if` without an `else`.
    pub fn alloc_empty_seq(&mut self, bt: BlockType) -> (r: usize)
        requires
            old(self).stacks_wf(),
        ensures
            final(self).stacks_wf(),
            final(self).controls == old(self).controls,
            final(self).if_else == old(self).if_else,
            final(self).operands == old(self).operands,
            r == old(self).arena@.len(),
            final(self).arena@.len() == old(self).arena@.len() + 1,
            forall|i: int| 0 <= i < old(self).arena@.len()
                ==> final(self).arena@[i] == old(self).arena@[i],
            final(self).arena@[r as int].ty == bt,
            final(self).arena@[r as int].instrs@.len() == 0,
            total_instrs(final(self).arena@) == total_instrs(old(self).arena@),
    {
        let id = self.arena.len();
        self.arena.push(InstrSeq { ty: bt, instrs: Vec::new() });
        proof {
            crate::ir::lemma_total_instrs_push_empty(
                old(self).arena@,
                self.arena@.last(),
            );
            assert(self.arena@.drop_last() =~= old(self).arena@);
            assert forall|s: int| 0 <= s < self.arena@.len()
                implies seq_children_ok(#[trigger] self.arena@[s], s, self.arena@.len() as int) by {
                if s < old(self).arena@.len() {
                    assert(seq_children_ok(old(self).arena@[s], s, old(self).arena@.len() as int));
                }
            }
        }
        id
    }

    /// Opens the function-entry frame at the bottom of an empty control
    /// stack: no parameters, the function's results as its results.
    pub fn push_control_entry(&mut self, bt: BlockType, results: Vec<ValType>) -> (r: usize)
        requires
            old(self).stacks_wf(),
            old(self).controls@.len() == 0,
        ensures
            final(self).stacks_wf(),
            final(self).if_else == old(self).if_else,
            final(self).operands == old(self).operands,
            r == old(self).arena@.len(),
            final(self).arena@.len() == old(self).arena@.len() + 1,
            forall|i: int| 0 <= i < old(self).arena@.len()
                ==> final(self).arena@[i] == old(self).arena@[i],
            final(self).arena@[r as int].ty == bt,
            final(self).arena@[r as int].instrs@.len() == 0,
            total_instrs(final(self).arena@) == total_instrs(old(self).arena@),
            final(self).controls@.len() == 1,
            final(self).top().kind == BlockKind::FunctionEntry,
            final(self).top().block == r,
            final(self).top().height == old(self).operands@.len(),
            final(self).top().unreachable == false,
            final(self).top().start_types@.len() == 0,
            final(self).top().end_types@ == results@,
    {
        let id = self.arena.len();
        self.arena.push(InstrSeq { ty: bt, instrs: Vec::new() });
        proof {
            crate::ir::lemma_total_instrs_push_empty(
                old(self).arena@,
                self.arena@.last(),
            );
            assert(self.arena@.drop_last() =~= old(self).arena@);
            assert forall|s: int| 0 <= s < self.arena@.len()
                implies seq_children_ok(#[trigger] self.arena@[s], s, self.arena@.len() as int) by {
                if s < old(self).arena@.len() {
                    assert(seq_children_ok(old(self).arena@[s], s, old(self).arena@.len() as int));
                }
            }
        }
        let h = self.operands.len();
        self.controls.push(Frame {
            kind: BlockKind::FunctionEntry,
            start_types: Vec::new(),
            end_types: results,
            height: h,
            unreachable: false,
            block: id,
        });
        id
    }

    /// Checked end-of-block: the operand stack must hold exactly the
    /// frame's result types above its height; the stack is truncated to
    /// the height and the frame removed.  The caller pushes the results
    /// back.
    pub fn pop_control(&mut self) -> (r: Result<Frame, ErrorKind>)
        requires
            old(self).stacks_wf(),
            old(self).controls@.len() >= 1,
        ensures
            final(self).stacks_wf(),
            final(self).if_else == old(self).if_else,
            final(self).arena == old(self).arena,
            ({
                let f = old(self).top();
                let pm = spec_pop_many(
                    old(self).operands@,
                    f.height as int,
                    f.unreachable,
                    f.end_types@,
                );
                &&& (r is Ok <==> (pm is Ok && pm->Ok_0.len() == f.height))
                &&& (r is Ok ==> r->Ok_0 == f
                        && final(self).operands@
                            == old(self).operands@.subrange(0, f.height as int)
                        && final(self).controls@ == old(self).controls@.drop_last())
                &&& (r is Err ==> final(self).controls == old(self).controls
                        && (if pm is Err {
                            r->Err_0 == pm->Err_0
                        } else {
                            r->Err_0 == ErrorKind::TypeMismatch
                        }))
            }),
    {
        let n = self.controls.len();
        let end = crate::types::copy_types(&self.controls[n - 1].end_types);
        match self.pop_operands(&end) {
            Err(k) => {
                return Err(k);
            }
            Ok(()) => {}
        }
        if self.operands.len() != self.controls[n - 1].height {
            return Err(ErrorKind::TypeMismatch);
        }
        proof {
            let f = old(self).top();
            lemma_pop_many_prefix(old(self).operands@, f.height as int, f.unreachable, f.end_types@);
            assert(self.operands@ == old(self).operands@.subrange(0, f.height as int));
        }
        let f = self.controls.pop().unwrap();
        Ok(f)
    }

    /// Marks the top frame unreachable and truncates the operand stack to
    /// its height; subsequent pops in the frame fabricate the sentinel.
    pub fn mark_unreachable(&mut self)
        requires
            old(self).stacks_wf(),
            old(self).controls@.len() >= 1,
        ensures
            final(self).stacks_wf(),
            final(self).arena == old(self).arena,
            final(self).if_else == old(self).if_else,
            final(self).operands@ == old(self).operands@.subrange(0, old(self).top().height as int),
            final(self).controls@.len() == old(self).controls@.len(),
            forall|i: int| 0 <= i < old(self).controls@.len() - 1
                ==> final(self).controls@[i] == old(self).controls@[i],
            final(self).top().kind == old(self).top().kind,
            final(self).top().block == old(self).top().block,
            final(self).top().height == old(self).top().height,
            final(self).top().unreachable == true,
            final(self).top().start_types == old(self).top().start_types,
            final(self).top().end_types == old(self).top().end_types,
    {
        let n = self.controls.len();
        let h = self.controls[n - 1].height;
        self.operands.truncate(h);
        let mut f = self.controls.pop().unwrap();
        f.unreachable = true;
        self.controls.push(f);
    }

    /// The label types of the `n`-th frame from the top, copied.
    pub fn label_types_of(&self, n: usize) -> (r: Result<Vec<ValType>, ErrorKind>)
        requires
            self.stacks_wf(),
        ensures
            (r is Ok <==> (n as int) < self.controls@.len()),
            r is Ok ==> r->Ok_0@
                == self.controls@[self.controls@.len() - 1 - n as int].spec_label_types(),
            r is Err ==> r->Err_0 == ErrorKind::UnknownLabel,
    {
        if n < self.controls.len() {
            let idx = self.controls.len() - 1 - n;
            if self.controls[idx].kind == BlockKind::Loop {
                Ok(crate::types::copy_types(&self.controls[idx].start_types))
            } else {
                Ok(crate::types::copy_types(&self.controls[idx].end_types))
            }
        } else {
            Err(ErrorKind::UnknownLabel)
        }
    }

    /// The sequence id and reachability of the `n`-th frame from the top.
    pub fn frame_info(&self, n: usize) -> (r: Result<(usize, bool), ErrorKind>)
        requires
            self.stacks_wf(),
        ensures
            (r is Ok <==> (n as int) < self.controls@.len()),
            r is Ok ==> r->Ok_0.0
                    == self.controls@[self.controls@.len() - 1 - n as int].block
                && r->Ok_0.1
                    == self.controls@[self.controls@.len() - 1 - n as int].unreachable,
            r is Err ==> r->Err_0 == ErrorKind::UnknownLabel,
    {
        if n < self.controls.len() {
            let idx = self.controls.len() - 1 - n;
            Ok((self.controls[idx].block, self.controls[idx].unreachable))
        } else {
            Err(ErrorKind::UnknownLabel)
        }
    }

    /// Appends an instruction to the sequence owned by the `n`-th frame
    /// from the top.
    pub fn alloc_instr_in(&mut self, n: usize, instr: Instr, loc: u32) -> (r: Result<
        (),
        ErrorKind,
    >)
        requires
            old(self).stacks_wf(),
            (n as int) < old(self).controls@.len() ==> forall|k: int|
                0 <= k < instr.children().len()
                    ==> old(self).controls@[old(self).controls@.len() - 1 - n as int].block
                        < #[trigger] instr.children()[k] < old(self).arena@.len(),
        ensures
            final(self).stacks_wf(),
            final(self).controls == old(self).controls,
            final(self).if_else == old(self).if_else,
            final(self).operands == old(self).operands,
            (r is Ok <==> (n as int) < old(self).controls@.len()),
            r is Err ==> final(self).arena == old(self).arena
                && r->Err_0 == ErrorKind::UnknownLabel,
            r is Ok ==> ({
                let b = old(self).controls@[old(self).controls@.len() - 1 - n as int].block as int;
                &&& final(self).arena@.len() == old(self).arena@.len()
                &&& forall|i: int| 0 <= i < old(self).arena@.len() && i != b
                        ==> final(self).arena@[i] == old(self).arena@[i]
                &&& final(self).arena@[b].ty == old(self).arena@[b].ty
                &&& final(self).arena@[b].instrs@ == old(self).arena@[b].instrs@.push((instr, loc))
                &&& total_instrs(final(self).arena@) == total_instrs(old(self).arena@) + 1
                &&& (forall|nl: int|
                        arena_locals_ok(old(self).arena@, nl)
                            && (forall|k: int| 0 <= k < instr.local_ids().len()
                                ==> instr.local_ids()[k] < nl)
                            ==> arena_locals_ok(final(self).arena@, nl))
            }),
    {
        if n >= self.controls.len() {
            return Err(ErrorKind::UnknownLabel);
        }
        let b = self.controls[self.controls.len() - 1 - n].block;
        let mut q = self.arena.remove(b);
        q.instrs.push((instr, loc));
        self.arena.insert(b, q);
        proof {
            let a1 = old(self).arena@;
            let a2 = self.arena@;
            assert(a2 =~= a1.update(b as int, a2[b as int]));
            assert(a2[b as int].instrs@ =~= a1[b as int].instrs@.push((instr, loc)));
            crate::ir::lemma_total_instrs_grow_one(a1, a2, b as int);
            assert forall|s: int| 0 <= s < a2.len()
                implies seq_children_ok(#[trigger] a2[s], s, a2.len() as int) by {
                assert(seq_children_ok(a1[s], s, a1.len() as int));
                if s == b as int {
                    assert forall|j: int, k: int|
                        0 <= j < a2[s].instrs@.len() && 0 <= k < a2[s].instrs@[j].0.children().len()
                            implies s < #[trigger] a2[s].instrs@[j].0.children()[k] < a2.len() by {
                        if j < a1[s].instrs@.len() {
                            assert(a2[s].instrs@[j] == a1[s].instrs@[j]);
                        } else {
                            assert(a2[s].instrs@[j].0 == instr);
                        }
                    }
                }
            }
            assert forall|nl: int|
                arena_locals_ok(a1, nl)
                    && (forall|k: int| 0 <= k < instr.local_ids().len()
                        ==> instr.local_ids()[k] < nl)
                    implies arena_locals_ok(a2, nl) by {
                assert forall|s: int, j: int, k: int|
                    0 <= s < a2.len() && 0 <= j < a2[s].instrs@.len()
                        && 0 <= k < a2[s].instrs@[j].0.local_ids().len()
                        implies #[trigger] a2[s].instrs@[j].0.local_ids()[k] < nl by {
                    if s == b as int && j == a1[s].instrs@.len() {
                        assert(a2[s].instrs@[j].0 == instr);
                    } else {
                        assert(a2[s].instrs@[j] == a1[s].instrs@[j]);
                        assert(arena_locals_ok(a1, nl));
                        assert(a1[s].instrs@[j].0.local_ids()[k] < nl);
                    }
                }
            }
        }
        Ok(())
    }
}

/// Decodes a memory immediate: the alignment exponent must be below 32;
/// the IR stores the byte alignment itself.
pub fn decode_mem_arg(m: &crate::ops::MemImm) -> (r: Result<crate::ir::MemArg, ErrorKind>)
    ensures
        (r is Ok <==> m.flags < 32),
        r is Ok ==> r->Ok_0 == (crate::ir::MemArg { align: 1u32 << m.flags, offset: m.offset }),
        r is Err ==> r->Err_0 == ErrorKind::InvalidAlignment,
{
    if m.flags >= 32 {
        Err(ErrorKind::InvalidAlignment)
    } else {
        Ok(crate::ir::MemArg { align: 1u32 << m.flags, offset: m.offset })
    }
}

/// How many IR nodes processing the operator adds, counted together with
/// the pending if/else entries: `nop` adds none; `else` and `end` only
/// move a pending node along; every other operator accounts for exactly
/// one node.
pub open spec fn op_nodes(op: Operator) -> int {
    match op {
        Operator::Nop | Operator::Else | Operator::End => 0,
        _ => 1,
    }
}

} // verus!
