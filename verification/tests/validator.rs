use wasmfn::encode::Encoder;
use wasmfn::err::ErrorKind;
use wasmfn::function::LocalFunction;
use wasmfn::ir::Instr;
use wasmfn::ops::{BinaryOp, BlockType, BrTableData, LoadKind, MemImm, Operator, UnaryOp, Value};
use wasmfn::types::{FuncType, IdsToIndices, Indices, ModuleInfo, ValType};

fn simple_module(results: Vec<ValType>, locals: Vec<ValType>) -> (ModuleInfo, Indices) {
    let m = ModuleInfo {
        types: vec![FuncType { params: vec![], results }],
        funcs: vec![0],
        locals: locals.clone(),
        globals: vec![],
        tables: vec![],
        memories: 1,
        data_count: 8,
        elements: vec![],
    };
    let ix = Indices {
        types: vec![0],
        funcs: vec![0],
        tables: vec![],
        memories: vec![0],
        globals: vec![],
        data: vec![0, 1, 2, 3, 4, 5, 6, 7],
        elements: vec![],
        locals: vec![(0..locals.len()).collect()],
    };
    (m, ix)
}

fn identity_rev() -> IdsToIndices {
    IdsToIndices {
        types: vec![0],
        funcs: vec![0],
        tables: vec![],
        globals: vec![],
        data: vec![0, 1, 2, 3, 4, 5, 6, 7],
        elements: vec![],
    }
}

fn parse_ok(results: Vec<ValType>, ops: Vec<Operator>) -> LocalFunction {
    let (m, ix) = simple_module(results, vec![]);
    let body: Vec<(Operator, u32)> =
        ops.into_iter().enumerate().map(|(i, o)| (o, i as u32)).collect();
    LocalFunction::parse(&m, &ix, 0, 0, vec![], &body).expect("body should validate")
}

fn parse_err(results: Vec<ValType>, ops: Vec<Operator>) -> ErrorKind {
    let (m, ix) = simple_module(results, vec![]);
    let body: Vec<(Operator, u32)> =
        ops.into_iter().enumerate().map(|(i, o)| (o, i as u32)).collect();
    LocalFunction::parse(&m, &ix, 0, 0, vec![], &body).expect_err("body should be rejected").kind
}

#[test]
fn empty_body_accepts() {
    let f = parse_ok(vec![], vec![Operator::End]);
    assert_eq!(f.block(f.entry_block()).instrs.len(), 0);
    assert_eq!(f.size(), 0);
}

#[test]
fn const_return_accepts() {
    let f = parse_ok(
        vec![ValType::I32],
        vec![Operator::Const(Value::I32(42)), Operator::End],
    );
    let entry = f.block(f.entry_block());
    assert_eq!(entry.instrs.len(), 1);
    assert!(matches!(entry.instrs[0].0, Instr::Const(Value::I32(42))));
    assert!(f.is_const());
    assert_eq!(f.size(), 1);
}

#[test]
fn implicit_else_if() {
    let f = parse_ok(
        vec![ValType::I32],
        vec![
            Operator::Const(Value::I32(1)),
            Operator::If(BlockType::Val(ValType::I32)),
            Operator::Const(Value::I32(7)),
            Operator::End,
            Operator::End,
        ],
    );
    let entry = f.block(f.entry_block());
    assert_eq!(entry.instrs.len(), 2);
    match entry.instrs[1].0 {
        Instr::IfElse { consequent, alternative } => {
            assert_eq!(f.block(alternative).instrs.len(), 0);
            let cons = f.block(consequent);
            assert!(matches!(
                cons.instrs.last().unwrap().0,
                Instr::Const(Value::I32(7))
            ));
        }
        ref other => panic!("expected an if/else node, got {:?}", other),
    }
}

#[test]
fn br_table_nonuniform_labels_rejects() {
    let kind = parse_err(
        vec![ValType::I32],
        vec![
            Operator::Block(BlockType::Val(ValType::I32)),
            Operator::Block(BlockType::Val(ValType::I64)),
            Operator::Const(Value::I32(0)),
            Operator::Const(Value::I32(0)),
            Operator::BrTable(BrTableData { labels: vec![1, 0], default: 0 }),
            Operator::End,
            Operator::End,
            Operator::End,
        ],
    );
    assert_eq!(kind, ErrorKind::TypeMismatch);
}

#[test]
fn stray_else_rejects() {
    let kind = parse_err(vec![], vec![Operator::Else, Operator::End]);
    assert_eq!(kind, ErrorKind::StrayElse);
}

#[test]
fn used_data_segments_tracks_bulk_memory() {
    let f = parse_ok(
        vec![],
        vec![
            Operator::DataDrop { segment: 3 },
            Operator::Const(Value::I32(0)),
            Operator::Const(Value::I32(0)),
            Operator::Const(Value::I32(0)),
            Operator::MemoryInit { segment: 5 },
            Operator::End,
        ],
    );
    assert_eq!(f.used_data_segments(), vec![3, 5]);
}

#[test]
fn missing_end_rejects() {
    let kind = parse_err(vec![ValType::I32], vec![Operator::Const(Value::I32(1))]);
    assert_eq!(kind, ErrorKind::UnexpectedEof);
    let kind = parse_err(vec![], vec![]);
    assert_eq!(kind, ErrorKind::UnexpectedEof);
}

#[test]
fn underflow_rejects() {
    let kind = parse_err(vec![], vec![Operator::Drop, Operator::End]);
    assert_eq!(kind, ErrorKind::StackUnderflow);
}

#[test]
fn operand_type_mismatch_rejects() {
    let kind = parse_err(
        vec![],
        vec![
            Operator::Const(Value::I32(1)),
            Operator::Unop(UnaryOp::I64Eqz),
            Operator::Drop,
            Operator::End,
        ],
    );
    assert_eq!(kind, ErrorKind::TypeMismatch);
}

#[test]
fn unknown_label_rejects() {
    let kind = parse_err(vec![], vec![Operator::Br(5), Operator::End]);
    assert_eq!(kind, ErrorKind::UnknownLabel);
}

#[test]
fn unknown_index_rejects() {
    let kind = parse_err(vec![], vec![Operator::Call(9), Operator::End]);
    assert_eq!(kind, ErrorKind::UnknownIndex);
}

#[test]
fn invalid_alignment_rejects() {
    let kind = parse_err(
        vec![],
        vec![
            Operator::Const(Value::I32(0)),
            Operator::Load {
                memarg: MemImm { flags: 32, offset: 0 },
                kind: LoadKind::I32 { atomic: false },
            },
            Operator::Drop,
            Operator::End,
        ],
    );
    assert_eq!(kind, ErrorKind::InvalidAlignment);
}

#[test]
fn nonzero_reserved_byte_rejects() {
    let kind = parse_err(
        vec![],
        vec![Operator::MemorySize { reserved: 1 }, Operator::Drop, Operator::End],
    );
    assert_eq!(kind, ErrorKind::MalformedReservedByte);
}

#[test]
fn nonzero_fence_flags_rejects() {
    let kind = parse_err(vec![], vec![Operator::AtomicFence { flags: 1 }, Operator::End]);
    assert_eq!(kind, ErrorKind::UnsupportedAtomicFence);
}

#[test]
fn operators_after_final_end_reject() {
    let kind = parse_err(vec![], vec![Operator::End, Operator::Nop]);
    assert_eq!(kind, ErrorKind::MalformedOperator);
}

#[test]
fn unreachable_region_is_polymorphic() {
    let f = parse_ok(
        vec![],
        vec![
            Operator::Unreachable,
            Operator::Binop(BinaryOp::I64Add),
            Operator::Drop,
            Operator::End,
        ],
    );
    assert_eq!(f.size(), 3);
}

#[test]
fn branch_label_types_follow_frame_kind() {
    // A loop's label types are its parameters: an empty-typed loop
    // accepts a bare branch even though its result would be i32.
    parse_ok(
        vec![ValType::I32],
        vec![
            Operator::Block(BlockType::Val(ValType::I32)),
            Operator::Loop(BlockType::Empty),
            Operator::Br(0), // the loop itself: a branch to it expects no values
            Operator::End,
            Operator::Const(Value::I32(3)),
            Operator::End,
            Operator::End,
        ],
    );
    // A block's label types are its results: branching to it needs the value.
    let f = parse_ok(
        vec![ValType::I32],
        vec![
            Operator::Block(BlockType::Val(ValType::I32)),
            Operator::Const(Value::I32(1)),
            Operator::Br(0),
            Operator::End,
            Operator::End,
        ],
    );
    assert_eq!(f.size(), 3);
}

#[test]
fn leb128_exact_bytes() {
    let mut e = Encoder::new();
    e.uleb(624485);
    assert_eq!(e.bytes, vec![0xe5, 0x8e, 0x26]);
    let mut e = Encoder::new();
    e.uleb(0);
    assert_eq!(e.bytes, vec![0]);
    let mut e = Encoder::new();
    e.uleb(127);
    assert_eq!(e.bytes, vec![127]);
    let mut e = Encoder::new();
    e.uleb(128);
    assert_eq!(e.bytes, vec![0x80, 0x01]);
}

#[test]
fn emit_locals_deterministic_and_exact() {
    let (m, ix) = simple_module(vec![], vec![ValType::I32, ValType::I64, ValType::I32]);
    let body = vec![
        (Operator::LocalGet(2), 0),
        (Operator::LocalSet(0), 1),
        (Operator::End, 2),
    ];
    let f = LocalFunction::parse(&m, &ix, 0, 0, vec![], &body).unwrap();
    let mut e1 = Encoder::new();
    let (used1, map1) = f.emit_locals(&m, &mut e1);
    let mut e2 = Encoder::new();
    let (used2, map2) = f.emit_locals(&m, &mut e2);
    assert_eq!(used1, used2);
    assert_eq!(map1, map2);
    assert_eq!(e1.bytes, e2.bytes);
    // One group: two i32 locals (ids 0 and 2), type byte 0x7f.
    assert_eq!(e1.bytes, vec![1, 2, 0x7f]);
    assert_eq!(used1, vec![0, 2]);
    assert_eq!(map1, vec![(0, 0), (2, 1)]);
}

#[test]
fn round_trip_preserves_structure() {
    let ops = vec![
        Operator::Const(Value::I32(1)),
        Operator::If(BlockType::Val(ValType::I32)),
        Operator::Const(Value::I32(7)),
        Operator::Else,
        Operator::Const(Value::I32(8)),
        Operator::End,
        Operator::Drop,
        Operator::Block(BlockType::Empty),
        Operator::Nop,
        Operator::End,
        Operator::Const(Value::I32(9)),
        Operator::End,
    ];
    let f1 = parse_ok(vec![ValType::I32], ops);
    let rev = identity_rev();
    let mut emitted: Vec<(Operator, u32)> = Vec::new();
    f1.emit_instructions(&rev, &vec![], &mut emitted).unwrap();
    let (m, ix) = simple_module(vec![ValType::I32], vec![]);
    let f2 = LocalFunction::parse(&m, &ix, 0, 0, vec![], &emitted).unwrap();
    let a1: Vec<Vec<Instr>> = f1
        .builder
        .arena
        .iter()
        .map(|s| s.instrs.iter().map(|(i, _)| i.clone()).collect())
        .collect();
    let a2: Vec<Vec<Instr>> = f2
        .builder
        .arena
        .iter()
        .map(|s| s.instrs.iter().map(|(i, _)| i.clone()).collect())
        .collect();
    assert_eq!(a1, a2);
    assert_eq!(f1.builder.entry, f2.builder.entry);
}

#[test]
fn v128_const_packs_little_endian() {
    let bytes: [u8; 16] = [1, 2, 3, 4, 5, 6, 7, 8, 9, 10, 11, 12, 13, 14, 15, 16];
    let f = parse_ok(
        vec![],
        vec![Operator::V128Const(bytes), Operator::Drop, Operator::End],
    );
    let entry = f.block(f.entry_block());
    match entry.instrs[0].0 {
        Instr::Const(Value::V128(x)) => {
            let mut expect: u128 = 0;
            for k in (0..16).rev() {
                expect = expect * 256 + bytes[k] as u128;
            }
            assert_eq!(x, expect);
        }
        ref other => panic!("expected a v128 constant, got {:?}", other),
    }
}

#[test]
fn table_copy_type_mismatch_rejects() {
    let mut m = ModuleInfo {
        types: vec![FuncType { params: vec![], results: vec![] }],
        funcs: vec![0],
        locals: vec![],
        globals: vec![],
        tables: vec![ValType::Funcref, ValType::Externref],
        memories: 1,
        data_count: 0,
        elements: vec![],
    };
    m.funcs = vec![0];
    let ix = Indices {
        types: vec![0],
        funcs: vec![0],
        tables: vec![0, 1],
        memories: vec![0],
        globals: vec![],
        data: vec![],
        elements: vec![],
        locals: vec![vec![]],
    };
    let body = vec![
        (Operator::Const(Value::I32(0)), 0),
        (Operator::Const(Value::I32(0)), 1),
        (Operator::Const(Value::I32(0)), 2),
        (Operator::TableCopy { src_table: 0, dst_table: 1 }, 3),
        (Operator::End, 4),
    ];
    let err = LocalFunction::parse(&m, &ix, 0, 0, vec![], &body).unwrap_err();
    assert_eq!(err.kind, ErrorKind::TypeMismatch);
}

#[test]
fn error_carries_operator_offset() {
    let (m, ix) = simple_module(vec![], vec![]);
    let body = vec![
        (Operator::Nop, 10),
        (Operator::Drop, 20),
        (Operator::End, 30),
    ];
    let err = LocalFunction::parse(&m, &ix, 0, 0, vec![], &body).unwrap_err();
    assert_eq!(err.kind, ErrorKind::StackUnderflow);
    assert_eq!(err.offset, 20);
}
