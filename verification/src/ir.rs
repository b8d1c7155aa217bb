//! The instruction tree: an arena of instruction sequences addressed by
//! opaque ids, populated by the validation driver.

use vstd::prelude::*;
use crate::types::ValType;
use crate::ops::{
    AtomicOp, AtomicWidth, BlockType, LoadKind, LoadSimdKind, StoreKind, Value,
};

verus! {

/// A memory access immediate at IR level: the byte alignment (a power of
/// two) and the byte offset.
#[derive(Clone, Copy, Debug, PartialEq, Eq, Structural)]
pub struct MemArg {
    pub align: u32,
    pub offset: u32,
}

/// One instruction at IR level.  Entity references are resolved ids;
/// structured control instructions carry the id(s) of their nested
/// sequence(s), branches carry the id of the sequence they target.
#[derive(Clone, Debug, PartialEq, Eq)]
pub enum Instr {
    Const(Value),
    Unop(crate::ops::UnaryOp),
    Binop(crate::ops::BinaryOp),
    Drop,
    Select(Option<ValType>),
    Return,
    Unreachable,
    Block(usize),
    Loop(usize),
    IfElse { consequent: usize, alternative: usize },
    Br(usize),
    BrIf(usize),
    BrTable { blocks: Vec<usize>, default: usize },
    Call(usize),
    CallIndirect { ty: usize, table: usize },
    LocalGet(usize),
    LocalSet(usize),
    LocalTee(usize),
    GlobalGet(usize),
    GlobalSet(usize),
    Load { memory: usize, arg: MemArg, kind: LoadKind },
    Store { memory: usize, arg: MemArg, kind: StoreKind },
    MemorySize(usize),
    MemoryGrow(usize),
    MemoryInit { memory: usize, data: usize },
    DataDrop(usize),
    MemoryCopy { src: usize, dst: usize },
    MemoryFill(usize),
    AtomicFence,
    AtomicRmw { memory: usize, arg: MemArg, op: AtomicOp, width: AtomicWidth },
    Cmpxchg { memory: usize, arg: MemArg, width: AtomicWidth },
    AtomicNotify { memory: usize, arg: MemArg },
    AtomicWait { memory: usize, arg: MemArg, sixty_four: bool },
    TableGet(usize),
    TableSet(usize),
    TableGrow(usize),
    TableSize(usize),
    TableFill(usize),
    RefNull(ValType),
    RefIsNull(ValType),
    RefFunc(usize),
    V128Bitselect,
    V128Swizzle,
    V128Shuffle { lanes: [u8; 16] },
    LoadSimd { memory: usize, arg: MemArg, kind: LoadSimdKind },
    TableCopy { src: usize, dst: usize },
    TableInit { elem: usize, table: usize },
    ElemDrop(usize),
}

impl Instr {
    /// The nested sequence ids a structured control instruction owns.
    /// Branches reference sequences but do not own them, so they are not
    /// listed here.
    pub open spec fn children(self) -> Seq<usize> {
        match self {
            Instr::Block(s) => seq![s],
            Instr::Loop(s) => seq![s],
            Instr::IfElse { consequent, alternative } => seq![consequent, alternative],
            _ => Seq::empty(),
        }
    }

    /// The local ids the instruction references.
    pub open spec fn local_ids(self) -> Seq<usize> {
        match self {
            Instr::LocalGet(l) => seq![l],
            Instr::LocalSet(l) => seq![l],
            Instr::LocalTee(l) => seq![l],
            _ => Seq::empty(),
        }
    }

    /// The data segment ids the instruction references.
    pub open spec fn data_ids(self) -> Seq<usize> {
        match self {
            Instr::MemoryInit { data, .. } => seq![data],
            Instr::DataDrop(d) => seq![d],
            _ => Seq::empty(),
        }
    }

    /// Whether the instruction is a constant-expression instruction per
    /// the Wasm constant-expression rules.
    pub open spec fn spec_is_const(self) -> bool {
        match self {
            Instr::Const(_) => true,
            Instr::RefNull(_) => true,
            Instr::RefFunc(_) => true,
            Instr::GlobalGet(_) => true,
            _ => false,
        }
    }

    /// Executable form of [`Instr::spec_is_const`].
    pub fn is_const(&self) -> (r: bool)
        ensures r == self.spec_is_const(),
    {
        match self {
            Instr::Const(_) => true,
            Instr::RefNull(_) => true,
            Instr::RefFunc(_) => true,
            Instr::GlobalGet(_) => true,
            _ => false,
        }
    }
}

/// One instruction sequence: the body of one structured block, as an
/// ordered list of (instruction, source location) pairs, together with
/// the block's signature annotation.
#[derive(Clone, Debug, PartialEq, Eq)]
pub struct InstrSeq {
    /// The signature annotation the block was written with.
    pub ty: BlockType,
    /// The instructions, each with the byte offset it was decoded from.
    pub instrs: Vec<(Instr, u32)>,
}

/// Every structured child reference in the sequence stored at id `s`
/// points forward: into the arena and past `s` itself.  Sequences are
/// allocated before their children, so the arena is a tree growing to
/// the right; walks terminate because ids only increase.
pub open spec fn seq_children_ok(q: InstrSeq, s: int, n: int) -> bool {
    forall|j: int, k: int|
        0 <= j < q.instrs@.len() && 0 <= k < q.instrs@[j].0.children().len()
            ==> s < #[trigger] q.instrs@[j].0.children()[k] < n
}

/// Arena well-formedness: all child references are forward references.
pub open spec fn arena_wf(arena: Seq<InstrSeq>) -> bool {
    forall|s: int| 0 <= s < arena.len() ==> seq_children_ok(#[trigger] arena[s], s, arena.len() as int)
}

/// The total number of instructions across the sequences of `arena`.
pub open spec fn total_instrs(arena: Seq<InstrSeq>) -> int
    decreases arena.len(),
{
    if arena.len() == 0 {
        0
    } else {
        total_instrs(arena.drop_last()) + arena.last().instrs@.len()
    }
}

/// Appending an empty sequence leaves the instruction total unchanged.
pub proof fn lemma_total_instrs_push_empty(arena: Seq<InstrSeq>, q: InstrSeq)
    requires q.instrs@.len() == 0,
    ensures total_instrs(arena.push(q)) == total_instrs(arena),
{
    assert(arena.push(q).drop_last() =~= arena);
}

/// Appending one instruction to one sequence raises the total by one.
pub proof fn lemma_total_instrs_grow_one(a1: Seq<InstrSeq>, a2: Seq<InstrSeq>, s: int)
    requires
        a1.len() == a2.len(),
        0 <= s < a1.len(),
        a2[s].instrs@.len() == a1[s].instrs@.len() + 1,
        forall|i: int| 0 <= i < a1.len() && i != s ==> a2[i] == a1[i],
    ensures
        total_instrs(a2) == total_instrs(a1) + 1,
    decreases a1.len(),
{
    if a1.len() > 0 {
        if s == a1.len() - 1 {
            assert(a1.drop_last() =~= a2.drop_last());
        } else {
            lemma_total_instrs_grow_one(a1.drop_last(), a2.drop_last(), s);
        }
    }
}

/// The arena and entry point of one function's instructions.
#[derive(Clone, Debug)]
pub struct FunctionBuilder {
    /// The type id of the function being built.
    pub ty: usize,
    /// All sequences, addressed by id.
    pub arena: Vec<InstrSeq>,
    /// The id of the entry sequence, once validation has created it.
    pub entry: Option<usize>,
}

} // verus!
