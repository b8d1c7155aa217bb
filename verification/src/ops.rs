//! Decoded operators: the interface between the operator-source
//! collaborator and the validation driver, together with the per-operator
//! type matrices of the Wasm specification.

use vstd::prelude::*;
use crate::types::ValType;

verus! {

/// A unary (one operand in, one out) operator, test operators included.
#[derive(Clone, Copy, Debug, PartialEq, Eq, Structural)]
pub enum UnaryOp {
    I32Clz,
    I32Ctz,
    I32Popcnt,
    I32Extend8S,
    I32Extend16S,
    I32Eqz,
    I64Clz,
    I64Ctz,
    I64Popcnt,
    I64Extend8S,
    I64Extend16S,
    I64Extend32S,
    I64Eqz,
    I32WrapI64,
    F32Abs,
    F32Neg,
    F32Ceil,
    F32Floor,
    F32Trunc,
    F32Nearest,
    F32Sqrt,
    F64Abs,
    F64Neg,
    F64Ceil,
    F64Floor,
    F64Trunc,
    F64Nearest,
    F64Sqrt,
    I32TruncSF32,
    I32TruncUF32,
    I32ReinterpretF32,
    I32TruncSSatF32,
    I32TruncUSatF32,
    I32TruncSF64,
    I32TruncUF64,
    I32TruncSSatF64,
    I32TruncUSatF64,
    I64ExtendSI32,
    I64ExtendUI32,
    I64TruncSF32,
    I64TruncUF32,
    I64TruncSSatF32,
    I64TruncUSatF32,
    I64TruncSF64,
    I64TruncUF64,
    I64ReinterpretF64,
    I64TruncSSatF64,
    I64TruncUSatF64,
    F32ConvertSI32,
    F32ConvertUI32,
    F32ReinterpretI32,
    F32ConvertSI64,
    F32ConvertUI64,
    F32DemoteF64,
    F64ConvertSI32,
    F64ConvertUI32,
    F64ConvertSI64,
    F64ConvertUI64,
    F64PromoteF32,
    I8x16Splat,
    I16x8Splat,
    I32x4Splat,
    I64x2Splat,
    F32x4Splat,
    F64x2Splat,
    I8x16ExtractLaneS { idx: u8 },
    I8x16ExtractLaneU { idx: u8 },
    I16x8ExtractLaneS { idx: u8 },
    I16x8ExtractLaneU { idx: u8 },
    I32x4ExtractLane { idx: u8 },
    I8x16AnyTrue,
    I8x16AllTrue,
    I16x8AnyTrue,
    I16x8AllTrue,
    I32x4AnyTrue,
    I32x4AllTrue,
    I64x2ExtractLane { idx: u8 },
    F32x4ExtractLane { idx: u8 },
    F64x2ExtractLane { idx: u8 },
    V128Not,
    I8x16Abs,
    I8x16Neg,
    I16x8Abs,
    I16x8Neg,
    I32x4Abs,
    I32x4Neg,
    I64x2Neg,
    F32x4Abs,
    F32x4Neg,
    F32x4Sqrt,
    F64x2Abs,
    F64x2Neg,
    F64x2Sqrt,
    I32x4TruncSatF32x4S,
    I32x4TruncSatF32x4U,
    F32x4ConvertI32x4S,
    F32x4ConvertI32x4U,
    I16x8WidenLowI8x16S,
    I16x8WidenLowI8x16U,
    I16x8WidenHighI8x16S,
    I16x8WidenHighI8x16U,
    I32x4WidenLowI16x8S,
    I32x4WidenLowI16x8U,
    I32x4WidenHighI16x8S,
    I32x4WidenHighI16x8U,
}

/// A binary (two operands in, one out) operator, comparisons included.
#[derive(Clone, Copy, Debug, PartialEq, Eq, Structural)]
pub enum BinaryOp {
    I32Add,
    I32Sub,
    I32Mul,
    I32DivS,
    I32DivU,
    I32RemS,
    I32RemU,
    I32And,
    I32Or,
    I32Xor,
    I32Shl,
    I32ShrS,
    I32ShrU,
    I32Rotl,
    I32Rotr,
    I32Eq,
    I32Ne,
    I32LtS,
    I32LtU,
    I32GtS,
    I32GtU,
    I32LeS,
    I32LeU,
    I32GeS,
    I32GeU,
    I64Add,
    I64Sub,
    I64Mul,
    I64DivS,
    I64DivU,
    I64RemS,
    I64RemU,
    I64And,
    I64Or,
    I64Xor,
    I64Shl,
    I64ShrS,
    I64ShrU,
    I64Rotl,
    I64Rotr,
    I64Eq,
    I64Ne,
    I64LtS,
    I64LtU,
    I64GtS,
    I64GtU,
    I64LeS,
    I64LeU,
    I64GeS,
    I64GeU,
    F32Add,
    F32Sub,
    F32Mul,
    F32Div,
    F32Min,
    F32Max,
    F32Copysign,
    F32Eq,
    F32Ne,
    F32Lt,
    F32Gt,
    F32Le,
    F32Ge,
    F64Add,
    F64Sub,
    F64Mul,
    F64Div,
    F64Min,
    F64Max,
    F64Copysign,
    F64Eq,
    F64Ne,
    F64Lt,
    F64Gt,
    F64Le,
    F64Ge,
    I8x16Eq,
    I8x16Ne,
    I8x16LtS,
    I8x16LtU,
    I8x16GtS,
    I8x16GtU,
    I8x16LeS,
    I8x16LeU,
    I8x16GeS,
    I8x16GeU,
    I16x8Eq,
    I16x8Ne,
    I16x8LtS,
    I16x8LtU,
    I16x8GtS,
    I16x8GtU,
    I16x8LeS,
    I16x8LeU,
    I16x8GeS,
    I16x8GeU,
    I32x4Eq,
    I32x4Ne,
    I32x4LtS,
    I32x4LtU,
    I32x4GtS,
    I32x4GtU,
    I32x4LeS,
    I32x4LeU,
    I32x4GeS,
    I32x4GeU,
    F32x4Eq,
    F32x4Ne,
    F32x4Lt,
    F32x4Gt,
    F32x4Le,
    F32x4Ge,
    F64x2Eq,
    F64x2Ne,
    F64x2Lt,
    F64x2Gt,
    F64x2Le,
    F64x2Ge,
    V128And,
    V128AndNot,
    V128Or,
    V128Xor,
    I8x16Add,
    I8x16AddSaturateS,
    I8x16AddSaturateU,
    I8x16Sub,
    I8x16SubSaturateS,
    I8x16SubSaturateU,
    I16x8Add,
    I16x8AddSaturateS,
    I16x8AddSaturateU,
    I16x8Sub,
    I16x8SubSaturateS,
    I16x8SubSaturateU,
    I16x8Mul,
    I32x4Add,
    I32x4Sub,
    I32x4Mul,
    I64x2Add,
    I64x2Sub,
    I64x2Mul,
    F32x4Add,
    F32x4Sub,
    F32x4Mul,
    F32x4Div,
    F32x4Min,
    F32x4Max,
    F64x2Add,
    F64x2Sub,
    F64x2Mul,
    F64x2Div,
    F64x2Min,
    F64x2Max,
    I8x16NarrowI16x8S,
    I8x16NarrowI16x8U,
    I16x8NarrowI32x4S,
    I16x8NarrowI32x4U,
    I8x16RoundingAverageU,
    I16x8RoundingAverageU,
    I8x16MinS,
    I8x16MinU,
    I8x16MaxS,
    I8x16MaxU,
    I16x8MinS,
    I16x8MinU,
    I16x8MaxS,
    I16x8MaxU,
    I32x4MinS,
    I32x4MinU,
    I32x4MaxS,
    I32x4MaxU,
    I8x16Shl,
    I8x16ShrS,
    I8x16ShrU,
    I16x8Shl,
    I16x8ShrS,
    I16x8ShrU,
    I32x4Shl,
    I32x4ShrS,
    I32x4ShrU,
    I64x2Shl,
    I64x2ShrS,
    I64x2ShrU,
    I8x16ReplaceLane { idx: u8 },
    I16x8ReplaceLane { idx: u8 },
    I32x4ReplaceLane { idx: u8 },
    I64x2ReplaceLane { idx: u8 },
    F32x4ReplaceLane { idx: u8 },
    F64x2ReplaceLane { idx: u8 },
}

/// The operand and result types of each unary operator, per the Wasm type matrices.
pub open spec fn spec_unop_sig(op: UnaryOp) -> (ValType, ValType) {
    match op {
        UnaryOp::I32Clz
        | UnaryOp::I32Ctz
        | UnaryOp::I32Popcnt
        | UnaryOp::I32Extend8S
        | UnaryOp::I32Extend16S
        | UnaryOp::I32Eqz => (ValType::I32, ValType::I32),
        UnaryOp::I64Clz
        | UnaryOp::I64Ctz
        | UnaryOp::I64Popcnt
        | UnaryOp::I64Extend8S
        | UnaryOp::I64Extend16S
        | UnaryOp::I64Extend32S => (ValType::I64, ValType::I64),
        UnaryOp::I64Eqz
        | UnaryOp::I32WrapI64 => (ValType::I64, ValType::I32),
        UnaryOp::F32Abs
        | UnaryOp::F32Neg
        | UnaryOp::F32Ceil
        | UnaryOp::F32Floor
        | UnaryOp::F32Trunc
        | UnaryOp::F32Nearest
        | UnaryOp::F32Sqrt => (ValType::F32, ValType::F32),
        UnaryOp::F64Abs
        | UnaryOp::F64Neg
        | UnaryOp::F64Ceil
        | UnaryOp::F64Floor
        | UnaryOp::F64Trunc
        | UnaryOp::F64Nearest
        | UnaryOp::F64Sqrt => (ValType::F64, ValType::F64),
        UnaryOp::I32TruncSF32
        | UnaryOp::I32TruncUF32
        | UnaryOp::I32ReinterpretF32
        | UnaryOp::I32TruncSSatF32
        | UnaryOp::I32TruncUSatF32 => (ValType::F32, ValType::I32),
        UnaryOp::I32TruncSF64
        | UnaryOp::I32TruncUF64
        | UnaryOp::I32TruncSSatF64
        | UnaryOp::I32TruncUSatF64 => (ValType::F64, ValType::I32),
        UnaryOp::I64ExtendSI32
        | UnaryOp::I64ExtendUI32 => (ValType::I32, ValType::I64),
        UnaryOp::I64TruncSF32
        | UnaryOp::I64TruncUF32
        | UnaryOp::I64TruncSSatF32
        | UnaryOp::I64TruncUSatF32 => (ValType::F32, ValType::I64),
        UnaryOp::I64TruncSF64
        | UnaryOp::I64TruncUF64
        | UnaryOp::I64ReinterpretF64
        | UnaryOp::I64TruncSSatF64
        | UnaryOp::I64TruncUSatF64 => (ValType::F64, ValType::I64),
        UnaryOp::F32ConvertSI32
        | UnaryOp::F32ConvertUI32
        | UnaryOp::F32ReinterpretI32 => (ValType::I32, ValType::F32),
        UnaryOp::F32ConvertSI64
        | UnaryOp::F32ConvertUI64 => (ValType::I64, ValType::F32),
        UnaryOp::F32DemoteF64 => (ValType::F64, ValType::F32),
        UnaryOp::F64ConvertSI32
        | UnaryOp::F64ConvertUI32 => (ValType::I32, ValType::F64),
        UnaryOp::F64ConvertSI64
        | UnaryOp::F64ConvertUI64 => (ValType::I64, ValType::F64),
        UnaryOp::F64PromoteF32 => (ValType::F32, ValType::F64),
        UnaryOp::I8x16Splat
        | UnaryOp::I16x8Splat
        | UnaryOp::I32x4Splat => (ValType::I32, ValType::V128),
        UnaryOp::I64x2Splat => (ValType::I64, ValType::V128),
        UnaryOp::F32x4Splat => (ValType::F32, ValType::V128),
        UnaryOp::F64x2Splat => (ValType::F64, ValType::V128),
        UnaryOp::I8x16ExtractLaneS { .. }
        | UnaryOp::I8x16ExtractLaneU { .. }
        | UnaryOp::I16x8ExtractLaneS { .. }
        | UnaryOp::I16x8ExtractLaneU { .. }
        | UnaryOp::I32x4ExtractLane { .. }
        | UnaryOp::I8x16AnyTrue
        | UnaryOp::I8x16AllTrue
        | UnaryOp::I16x8AnyTrue
        | UnaryOp::I16x8AllTrue
        | UnaryOp::I32x4AnyTrue
        | UnaryOp::I32x4AllTrue => (ValType::V128, ValType::I32),
        UnaryOp::I64x2ExtractLane { .. } => (ValType::V128, ValType::I64),
        UnaryOp::F32x4ExtractLane { .. } => (ValType::V128, ValType::F32),
        UnaryOp::F64x2ExtractLane { .. } => (ValType::V128, ValType::F64),
        UnaryOp::V128Not
        | UnaryOp::I8x16Abs
        | UnaryOp::I8x16Neg
        | UnaryOp::I16x8Abs
        | UnaryOp::I16x8Neg
        | UnaryOp::I32x4Abs
        | UnaryOp::I32x4Neg
        | UnaryOp::I64x2Neg
        | UnaryOp::F32x4Abs
        | UnaryOp::F32x4Neg
        | UnaryOp::F32x4Sqrt
        | UnaryOp::F64x2Abs
        | UnaryOp::F64x2Neg
        | UnaryOp::F64x2Sqrt
        | UnaryOp::I32x4TruncSatF32x4S
        | UnaryOp::I32x4TruncSatF32x4U
        | UnaryOp::F32x4ConvertI32x4S
        | UnaryOp::F32x4ConvertI32x4U
        | UnaryOp::I16x8WidenLowI8x16S
        | UnaryOp::I16x8WidenLowI8x16U
        | UnaryOp::I16x8WidenHighI8x16S
        | UnaryOp::I16x8WidenHighI8x16U
        | UnaryOp::I32x4WidenLowI16x8S
        | UnaryOp::I32x4WidenLowI16x8U
        | UnaryOp::I32x4WidenHighI16x8S
        | UnaryOp::I32x4WidenHighI16x8U => (ValType::V128, ValType::V128),
    }
}

/// Executable form of [`spec_unop_sig`].
pub fn unop_sig(op: UnaryOp) -> (r: (ValType, ValType))
    ensures r == spec_unop_sig(op),
{
    match op {
        UnaryOp::I32Clz
        | UnaryOp::I32Ctz
        | UnaryOp::I32Popcnt
        | UnaryOp::I32Extend8S
        | UnaryOp::I32Extend16S
        | UnaryOp::I32Eqz => (ValType::I32, ValType::I32),
        UnaryOp::I64Clz
        | UnaryOp::I64Ctz
        | UnaryOp::I64Popcnt
        | UnaryOp::I64Extend8S
        | UnaryOp::I64Extend16S
        | UnaryOp::I64Extend32S => (ValType::I64, ValType::I64),
        UnaryOp::I64Eqz
        | UnaryOp::I32WrapI64 => (ValType::I64, ValType::I32),
        UnaryOp::F32Abs
        | UnaryOp::F32Neg
        | UnaryOp::F32Ceil
        | UnaryOp::F32Floor
        | UnaryOp::F32Trunc
        | UnaryOp::F32Nearest
        | UnaryOp::F32Sqrt => (ValType::F32, ValType::F32),
        UnaryOp::F64Abs
        | UnaryOp::F64Neg
        | UnaryOp::F64Ceil
        | UnaryOp::F64Floor
        | UnaryOp::F64Trunc
        | UnaryOp::F64Nearest
        | UnaryOp::F64Sqrt => (ValType::F64, ValType::F64),
        UnaryOp::I32TruncSF32
        | UnaryOp::I32TruncUF32
        | UnaryOp::I32ReinterpretF32
        | UnaryOp::I32TruncSSatF32
        | UnaryOp::I32TruncUSatF32 => (ValType::F32, ValType::I32),
        UnaryOp::I32TruncSF64
        | UnaryOp::I32TruncUF64
        | UnaryOp::I32TruncSSatF64
        | UnaryOp::I32TruncUSatF64 => (ValType::F64, ValType::I32),
        UnaryOp::I64ExtendSI32
        | UnaryOp::I64ExtendUI32 => (ValType::I32, ValType::I64),
        UnaryOp::I64TruncSF32
        | UnaryOp::I64TruncUF32
        | UnaryOp::I64TruncSSatF32
        | UnaryOp::I64TruncUSatF32 => (ValType::F32, ValType::I64),
        UnaryOp::I64TruncSF64
        | UnaryOp::I64TruncUF64
        | UnaryOp::I64ReinterpretF64
        | UnaryOp::I64TruncSSatF64
        | UnaryOp::I64TruncUSatF64 => (ValType::F64, ValType::I64),
        UnaryOp::F32ConvertSI32
        | UnaryOp::F32ConvertUI32
        | UnaryOp::F32ReinterpretI32 => (ValType::I32, ValType::F32),
        UnaryOp::F32ConvertSI64
        | UnaryOp::F32ConvertUI64 => (ValType::I64, ValType::F32),
        UnaryOp::F32DemoteF64 => (ValType::F64, ValType::F32),
        UnaryOp::F64ConvertSI32
        | UnaryOp::F64ConvertUI32 => (ValType::I32, ValType::F64),
        UnaryOp::F64ConvertSI64
        | UnaryOp::F64ConvertUI64 => (ValType::I64, ValType::F64),
        UnaryOp::F64PromoteF32 => (ValType::F32, ValType::F64),
        UnaryOp::I8x16Splat
        | UnaryOp::I16x8Splat
        | UnaryOp::I32x4Splat => (ValType::I32, ValType::V128),
        UnaryOp::I64x2Splat => (ValType::I64, ValType::V128),
        UnaryOp::F32x4Splat => (ValType::F32, ValType::V128),
        UnaryOp::F64x2Splat => (ValType::F64, ValType::V128),
        UnaryOp::I8x16ExtractLaneS { .. }
        | UnaryOp::I8x16ExtractLaneU { .. }
        | UnaryOp::I16x8ExtractLaneS { .. }
        | UnaryOp::I16x8ExtractLaneU { .. }
        | UnaryOp::I32x4ExtractLane { .. }
        | UnaryOp::I8x16AnyTrue
        | UnaryOp::I8x16AllTrue
        | UnaryOp::I16x8AnyTrue
        | UnaryOp::I16x8AllTrue
        | UnaryOp::I32x4AnyTrue
        | UnaryOp::I32x4AllTrue => (ValType::V128, ValType::I32),
        UnaryOp::I64x2ExtractLane { .. } => (ValType::V128, ValType::I64),
        UnaryOp::F32x4ExtractLane { .. } => (ValType::V128, ValType::F32),
        UnaryOp::F64x2ExtractLane { .. } => (ValType::V128, ValType::F64),
        UnaryOp::V128Not
        | UnaryOp::I8x16Abs
        | UnaryOp::I8x16Neg
        | UnaryOp::I16x8Abs
        | UnaryOp::I16x8Neg
        | UnaryOp::I32x4Abs
        | UnaryOp::I32x4Neg
        | UnaryOp::I64x2Neg
        | UnaryOp::F32x4Abs
        | UnaryOp::F32x4Neg
        | UnaryOp::F32x4Sqrt
        | UnaryOp::F64x2Abs
        | UnaryOp::F64x2Neg
        | UnaryOp::F64x2Sqrt
        | UnaryOp::I32x4TruncSatF32x4S
        | UnaryOp::I32x4TruncSatF32x4U
        | UnaryOp::F32x4ConvertI32x4S
        | UnaryOp::F32x4ConvertI32x4U
        | UnaryOp::I16x8WidenLowI8x16S
        | UnaryOp::I16x8WidenLowI8x16U
        | UnaryOp::I16x8WidenHighI8x16S
        | UnaryOp::I16x8WidenHighI8x16U
        | UnaryOp::I32x4WidenLowI16x8S
        | UnaryOp::I32x4WidenLowI16x8U
        | UnaryOp::I32x4WidenHighI16x8S
        | UnaryOp::I32x4WidenHighI16x8U => (ValType::V128, ValType::V128),
    }
}

/// The operand and result types of each binary operator, per the Wasm type matrices.
pub open spec fn spec_binop_sig(op: BinaryOp) -> (ValType, ValType, ValType) {
    match op {
        BinaryOp::I32Add
        | BinaryOp::I32Sub
        | BinaryOp::I32Mul
        | BinaryOp::I32DivS
        | BinaryOp::I32DivU
        | BinaryOp::I32RemS
        | BinaryOp::I32RemU
        | BinaryOp::I32And
        | BinaryOp::I32Or
        | BinaryOp::I32Xor
        | BinaryOp::I32Shl
        | BinaryOp::I32ShrS
        | BinaryOp::I32ShrU
        | BinaryOp::I32Rotl
        | BinaryOp::I32Rotr
        | BinaryOp::I32Eq
        | BinaryOp::I32Ne
        | BinaryOp::I32LtS
        | BinaryOp::I32LtU
        | BinaryOp::I32GtS
        | BinaryOp::I32GtU
        | BinaryOp::I32LeS
        | BinaryOp::I32LeU
        | BinaryOp::I32GeS
        | BinaryOp::I32GeU => (ValType::I32, ValType::I32, ValType::I32),
        BinaryOp::I64Add
        | BinaryOp::I64Sub
        | BinaryOp::I64Mul
        | BinaryOp::I64DivS
        | BinaryOp::I64DivU
        | BinaryOp::I64RemS
        | BinaryOp::I64RemU
        | BinaryOp::I64And
        | BinaryOp::I64Or
        | BinaryOp::I64Xor
        | BinaryOp::I64Shl
        | BinaryOp::I64ShrS
        | BinaryOp::I64ShrU
        | BinaryOp::I64Rotl
        | BinaryOp::I64Rotr => (ValType::I64, ValType::I64, ValType::I64),
        BinaryOp::I64Eq
        | BinaryOp::I64Ne
        | BinaryOp::I64LtS
        | BinaryOp::I64LtU
        | BinaryOp::I64GtS
        | BinaryOp::I64GtU
        | BinaryOp::I64LeS
        | BinaryOp::I64LeU
        | BinaryOp::I64GeS
        | BinaryOp::I64GeU => (ValType::I64, ValType::I64, ValType::I32),
        BinaryOp::F32Add
        | BinaryOp::F32Sub
        | BinaryOp::F32Mul
        | BinaryOp::F32Div
        | BinaryOp::F32Min
        | BinaryOp::F32Max
        | BinaryOp::F32Copysign => (ValType::F32, ValType::F32, ValType::F32),
        BinaryOp::F32Eq
        | BinaryOp::F32Ne
        | BinaryOp::F32Lt
        | BinaryOp::F32Gt
        | BinaryOp::F32Le
        | BinaryOp::F32Ge => (ValType::F32, ValType::F32, ValType::I32),
        BinaryOp::F64Add
        | BinaryOp::F64Sub
        | BinaryOp::F64Mul
        | BinaryOp::F64Div
        | BinaryOp::F64Min
        | BinaryOp::F64Max
        | BinaryOp::F64Copysign => (ValType::F64, ValType::F64, ValType::F64),
        BinaryOp::F64Eq
        | BinaryOp::F64Ne
        | BinaryOp::F64Lt
        | BinaryOp::F64Gt
        | BinaryOp::F64Le
        | BinaryOp::F64Ge => (ValType::F64, ValType::F64, ValType::I32),
        BinaryOp::I8x16Eq
        | BinaryOp::I8x16Ne
        | BinaryOp::I8x16LtS
        | BinaryOp::I8x16LtU
        | BinaryOp::I8x16GtS
        | BinaryOp::I8x16GtU
        | BinaryOp::I8x16LeS
        | BinaryOp::I8x16LeU
        | BinaryOp::I8x16GeS
        | BinaryOp::I8x16GeU
        | BinaryOp::I16x8Eq
        | BinaryOp::I16x8Ne
        | BinaryOp::I16x8LtS
        | BinaryOp::I16x8LtU
        | BinaryOp::I16x8GtS
        | BinaryOp::I16x8GtU
        | BinaryOp::I16x8LeS
        | BinaryOp::I16x8LeU
        | BinaryOp::I16x8GeS
        | BinaryOp::I16x8GeU
        | BinaryOp::I32x4Eq
        | BinaryOp::I32x4Ne
        | BinaryOp::I32x4LtS
        | BinaryOp::I32x4LtU
        | BinaryOp::I32x4GtS
        | BinaryOp::I32x4GtU
        | BinaryOp::I32x4LeS
        | BinaryOp::I32x4LeU
        | BinaryOp::I32x4GeS
        | BinaryOp::I32x4GeU
        | BinaryOp::F32x4Eq
        | BinaryOp::F32x4Ne
        | BinaryOp::F32x4Lt
        | BinaryOp::F32x4Gt
        | BinaryOp::F32x4Le
        | BinaryOp::F32x4Ge
        | BinaryOp::F64x2Eq
        | BinaryOp::F64x2Ne
        | BinaryOp::F64x2Lt
        | BinaryOp::F64x2Gt
        | BinaryOp::F64x2Le
        | BinaryOp::F64x2Ge
        | BinaryOp::V128And
        | BinaryOp::V128AndNot
        | BinaryOp::V128Or
        | BinaryOp::V128Xor
        | BinaryOp::I8x16Add
        | BinaryOp::I8x16AddSaturateS
        | BinaryOp::I8x16AddSaturateU
        | BinaryOp::I8x16Sub
        | BinaryOp::I8x16SubSaturateS
        | BinaryOp::I8x16SubSaturateU
        | BinaryOp::I16x8Add
        | BinaryOp::I16x8AddSaturateS
        | BinaryOp::I16x8AddSaturateU
        | BinaryOp::I16x8Sub
        | BinaryOp::I16x8SubSaturateS
        | BinaryOp::I16x8SubSaturateU
        | BinaryOp::I16x8Mul
        | BinaryOp::I32x4Add
        | BinaryOp::I32x4Sub
        | BinaryOp::I32x4Mul
        | BinaryOp::I64x2Add
        | BinaryOp::I64x2Sub
        | BinaryOp::I64x2Mul
        | BinaryOp::F32x4Add
        | BinaryOp::F32x4Sub
        | BinaryOp::F32x4Mul
        | BinaryOp::F32x4Div
        | BinaryOp::F32x4Min
        | BinaryOp::F32x4Max
        | BinaryOp::F64x2Add
        | BinaryOp::F64x2Sub
        | BinaryOp::F64x2Mul
        | BinaryOp::F64x2Div
        | BinaryOp::F64x2Min
        | BinaryOp::F64x2Max
        | BinaryOp::I8x16NarrowI16x8S
        | BinaryOp::I8x16NarrowI16x8U
        | BinaryOp::I16x8NarrowI32x4S
        | BinaryOp::I16x8NarrowI32x4U
        | BinaryOp::I8x16RoundingAverageU
        | BinaryOp::I16x8RoundingAverageU
        | BinaryOp::I8x16MinS
        | BinaryOp::I8x16MinU
        | BinaryOp::I8x16MaxS
        | BinaryOp::I8x16MaxU
        | BinaryOp::I16x8MinS
        | BinaryOp::I16x8MinU
        | BinaryOp::I16x8MaxS
        | BinaryOp::I16x8MaxU
        | BinaryOp::I32x4MinS
        | BinaryOp::I32x4MinU
        | BinaryOp::I32x4MaxS
        | BinaryOp::I32x4MaxU => (ValType::V128, ValType::V128, ValType::V128),
        BinaryOp::I8x16Shl
        | BinaryOp::I8x16ShrS
        | BinaryOp::I8x16ShrU
        | BinaryOp::I16x8Shl
        | BinaryOp::I16x8ShrS
        | BinaryOp::I16x8ShrU
        | BinaryOp::I32x4Shl
        | BinaryOp::I32x4ShrS
        | BinaryOp::I32x4ShrU
        | BinaryOp::I64x2Shl
        | BinaryOp::I64x2ShrS
        | BinaryOp::I64x2ShrU
        | BinaryOp::I8x16ReplaceLane { .. }
        | BinaryOp::I16x8ReplaceLane { .. }
        | BinaryOp::I32x4ReplaceLane { .. } => (ValType::V128, ValType::I32, ValType::V128),
        BinaryOp::I64x2ReplaceLane { .. } => (ValType::V128, ValType::I64, ValType::V128),
        BinaryOp::F32x4ReplaceLane { .. } => (ValType::V128, ValType::F32, ValType::V128),
        BinaryOp::F64x2ReplaceLane { .. } => (ValType::V128, ValType::F64, ValType::V128),
    }
}

/// Executable form of [`spec_binop_sig`].
pub fn binop_sig(op: BinaryOp) -> (r: (ValType, ValType, ValType))
    ensures r == spec_binop_sig(op),
{
    match op {
        BinaryOp::I32Add
        | BinaryOp::I32Sub
        | BinaryOp::I32Mul
        | BinaryOp::I32DivS
        | BinaryOp::I32DivU
        | BinaryOp::I32RemS
        | BinaryOp::I32RemU
        | BinaryOp::I32And
        | BinaryOp::I32Or
        | BinaryOp::I32Xor
        | BinaryOp::I32Shl
        | BinaryOp::I32ShrS
        | BinaryOp::I32ShrU
        | BinaryOp::I32Rotl
        | BinaryOp::I32Rotr
        | BinaryOp::I32Eq
        | BinaryOp::I32Ne
        | BinaryOp::I32LtS
        | BinaryOp::I32LtU
        | BinaryOp::I32GtS
        | BinaryOp::I32GtU
        | BinaryOp::I32LeS
        | BinaryOp::I32LeU
        | BinaryOp::I32GeS
        | BinaryOp::I32GeU => (ValType::I32, ValType::I32, ValType::I32),
        BinaryOp::I64Add
        | BinaryOp::I64Sub
        | BinaryOp::I64Mul
        | BinaryOp::I64DivS
        | BinaryOp::I64DivU
        | BinaryOp::I64RemS
        | BinaryOp::I64RemU
        | BinaryOp::I64And
        | BinaryOp::I64Or
        | BinaryOp::I64Xor
        | BinaryOp::I64Shl
        | BinaryOp::I64ShrS
        | BinaryOp::I64ShrU
        | BinaryOp::I64Rotl
        | BinaryOp::I64Rotr => (ValType::I64, ValType::I64, ValType::I64),
        BinaryOp::I64Eq
        | BinaryOp::I64Ne
        | BinaryOp::I64LtS
        | BinaryOp::I64LtU
        | BinaryOp::I64GtS
        | BinaryOp::I64GtU
        | BinaryOp::I64LeS
        | BinaryOp::I64LeU
        | BinaryOp::I64GeS
        | BinaryOp::I64GeU => (ValType::I64, ValType::I64, ValType::I32),
        BinaryOp::F32Add
        | BinaryOp::F32Sub
        | BinaryOp::F32Mul
        | BinaryOp::F32Div
        | BinaryOp::F32Min
        | BinaryOp::F32Max
        | BinaryOp::F32Copysign => (ValType::F32, ValType::F32, ValType::F32),
        BinaryOp::F32Eq
        | BinaryOp::F32Ne
        | BinaryOp::F32Lt
        | BinaryOp::F32Gt
        | BinaryOp::F32Le
        | BinaryOp::F32Ge => (ValType::F32, ValType::F32, ValType::I32),
        BinaryOp::F64Add
        | BinaryOp::F64Sub
        | BinaryOp::F64Mul
        | BinaryOp::F64Div
        | BinaryOp::F64Min
        | BinaryOp::F64Max
        | BinaryOp::F64Copysign => (ValType::F64, ValType::F64, ValType::F64),
        BinaryOp::F64Eq
        | BinaryOp::F64Ne
        | BinaryOp::F64Lt
        | BinaryOp::F64Gt
        | BinaryOp::F64Le
        | BinaryOp::F64Ge => (ValType::F64, ValType::F64, ValType::I32),
        BinaryOp::I8x16Eq
        | BinaryOp::I8x16Ne
        | BinaryOp::I8x16LtS
        | BinaryOp::I8x16LtU
        | BinaryOp::I8x16GtS
        | BinaryOp::I8x16GtU
        | BinaryOp::I8x16LeS
        | BinaryOp::I8x16LeU
        | BinaryOp::I8x16GeS
        | BinaryOp::I8x16GeU
        | BinaryOp::I16x8Eq
        | BinaryOp::I16x8Ne
        | BinaryOp::I16x8LtS
        | BinaryOp::I16x8LtU
        | BinaryOp::I16x8GtS
        | BinaryOp::I16x8GtU
        | BinaryOp::I16x8LeS
        | BinaryOp::I16x8LeU
        | BinaryOp::I16x8GeS
        | BinaryOp::I16x8GeU
        | BinaryOp::I32x4Eq
        | BinaryOp::I32x4Ne
        | BinaryOp::I32x4LtS
        | BinaryOp::I32x4LtU
        | BinaryOp::I32x4GtS
        | BinaryOp::I32x4GtU
        | BinaryOp::I32x4LeS
        | BinaryOp::I32x4LeU
        | BinaryOp::I32x4GeS
        | BinaryOp::I32x4GeU
        | BinaryOp::F32x4Eq
        | BinaryOp::F32x4Ne
        | BinaryOp::F32x4Lt
        | BinaryOp::F32x4Gt
        | BinaryOp::F32x4Le
        | BinaryOp::F32x4Ge
        | BinaryOp::F64x2Eq
        | BinaryOp::F64x2Ne
        | BinaryOp::F64x2Lt
        | BinaryOp::F64x2Gt
        | BinaryOp::F64x2Le
        | BinaryOp::F64x2Ge
        | BinaryOp::V128And
        | BinaryOp::V128AndNot
        | BinaryOp::V128Or
        | BinaryOp::V128Xor
        | BinaryOp::I8x16Add
        | BinaryOp::I8x16AddSaturateS
        | BinaryOp::I8x16AddSaturateU
        | BinaryOp::I8x16Sub
        | BinaryOp::I8x16SubSaturateS
        | BinaryOp::I8x16SubSaturateU
        | BinaryOp::I16x8Add
        | BinaryOp::I16x8AddSaturateS
        | BinaryOp::I16x8AddSaturateU
        | BinaryOp::I16x8Sub
        | BinaryOp::I16x8SubSaturateS
        | BinaryOp::I16x8SubSaturateU
        | BinaryOp::I16x8Mul
        | BinaryOp::I32x4Add
        | BinaryOp::I32x4Sub
        | BinaryOp::I32x4Mul
        | BinaryOp::I64x2Add
        | BinaryOp::I64x2Sub
        | BinaryOp::I64x2Mul
        | BinaryOp::F32x4Add
        | BinaryOp::F32x4Sub
        | BinaryOp::F32x4Mul
        | BinaryOp::F32x4Div
        | BinaryOp::F32x4Min
        | BinaryOp::F32x4Max
        | BinaryOp::F64x2Add
        | BinaryOp::F64x2Sub
        | BinaryOp::F64x2Mul
        | BinaryOp::F64x2Div
        | BinaryOp::F64x2Min
        | BinaryOp::F64x2Max
        | BinaryOp::I8x16NarrowI16x8S
        | BinaryOp::I8x16NarrowI16x8U
        | BinaryOp::I16x8NarrowI32x4S
        | BinaryOp::I16x8NarrowI32x4U
        | BinaryOp::I8x16RoundingAverageU
        | BinaryOp::I16x8RoundingAverageU
        | BinaryOp::I8x16MinS
        | BinaryOp::I8x16MinU
        | BinaryOp::I8x16MaxS
        | BinaryOp::I8x16MaxU
        | BinaryOp::I16x8MinS
        | BinaryOp::I16x8MinU
        | BinaryOp::I16x8MaxS
        | BinaryOp::I16x8MaxU
        | BinaryOp::I32x4MinS
        | BinaryOp::I32x4MinU
        | BinaryOp::I32x4MaxS
        | BinaryOp::I32x4MaxU => (ValType::V128, ValType::V128, ValType::V128),
        BinaryOp::I8x16Shl
        | BinaryOp::I8x16ShrS
        | BinaryOp::I8x16ShrU
        | BinaryOp::I16x8Shl
        | BinaryOp::I16x8ShrS
        | BinaryOp::I16x8ShrU
        | BinaryOp::I32x4Shl
        | BinaryOp::I32x4ShrS
        | BinaryOp::I32x4ShrU
        | BinaryOp::I64x2Shl
        | BinaryOp::I64x2ShrS
        | BinaryOp::I64x2ShrU
        | BinaryOp::I8x16ReplaceLane { .. }
        | BinaryOp::I16x8ReplaceLane { .. }
        | BinaryOp::I32x4ReplaceLane { .. } => (ValType::V128, ValType::I32, ValType::V128),
        BinaryOp::I64x2ReplaceLane { .. } => (ValType::V128, ValType::I64, ValType::V128),
        BinaryOp::F32x4ReplaceLane { .. } => (ValType::V128, ValType::F32, ValType::V128),
        BinaryOp::F64x2ReplaceLane { .. } => (ValType::V128, ValType::F64, ValType::V128),
    }
}

/// How a narrow load extends to its full operand width.
#[derive(Clone, Copy, Debug, PartialEq, Eq, Structural)]
pub enum ExtendedLoad {
    SignExtend,
    ZeroExtend,
    ZeroExtendAtomic,
}

/// The width, type and atomicity of a load.
#[derive(Clone, Copy, Debug, PartialEq, Eq, Structural)]
pub enum LoadKind {
    I32 { atomic: bool },
    I64 { atomic: bool },
    F32,
    F64,
    V128,
    I32_8 { kind: ExtendedLoad },
    I32_16 { kind: ExtendedLoad },
    I64_8 { kind: ExtendedLoad },
    I64_16 { kind: ExtendedLoad },
    I64_32 { kind: ExtendedLoad },
}

/// The value type a load of the given kind produces.
pub open spec fn spec_load_ty(k: LoadKind) -> ValType {
    match k {
        LoadKind::I32 { .. } | LoadKind::I32_8 { .. } | LoadKind::I32_16 { .. } => ValType::I32,
        LoadKind::I64 { .. } | LoadKind::I64_8 { .. } | LoadKind::I64_16 { .. }
        | LoadKind::I64_32 { .. } => ValType::I64,
        LoadKind::F32 => ValType::F32,
        LoadKind::F64 => ValType::F64,
        LoadKind::V128 => ValType::V128,
    }
}

/// Executable form of [`spec_load_ty`].
pub fn load_ty(k: LoadKind) -> (r: ValType)
    ensures r == spec_load_ty(k),
{
    match k {
        LoadKind::I32 { .. } | LoadKind::I32_8 { .. } | LoadKind::I32_16 { .. } => ValType::I32,
        LoadKind::I64 { .. } | LoadKind::I64_8 { .. } | LoadKind::I64_16 { .. }
        | LoadKind::I64_32 { .. } => ValType::I64,
        LoadKind::F32 => ValType::F32,
        LoadKind::F64 => ValType::F64,
        LoadKind::V128 => ValType::V128,
    }
}

/// The width, type and atomicity of a store.
#[derive(Clone, Copy, Debug, PartialEq, Eq, Structural)]
pub enum StoreKind {
    I32 { atomic: bool },
    I64 { atomic: bool },
    F32,
    F64,
    V128,
    I32_8 { atomic: bool },
    I32_16 { atomic: bool },
    I64_8 { atomic: bool },
    I64_16 { atomic: bool },
    I64_32 { atomic: bool },
}

/// The value type a store of the given kind consumes.
pub open spec fn spec_store_ty(k: StoreKind) -> ValType {
    match k {
        StoreKind::I32 { .. } | StoreKind::I32_8 { .. } | StoreKind::I32_16 { .. } => ValType::I32,
        StoreKind::I64 { .. } | StoreKind::I64_8 { .. } | StoreKind::I64_16 { .. }
        | StoreKind::I64_32 { .. } => ValType::I64,
        StoreKind::F32 => ValType::F32,
        StoreKind::F64 => ValType::F64,
        StoreKind::V128 => ValType::V128,
    }
}

/// Executable form of [`spec_store_ty`].
pub fn store_ty(k: StoreKind) -> (r: ValType)
    ensures r == spec_store_ty(k),
{
    match k {
        StoreKind::I32 { .. } | StoreKind::I32_8 { .. } | StoreKind::I32_16 { .. } => ValType::I32,
        StoreKind::I64 { .. } | StoreKind::I64_8 { .. } | StoreKind::I64_16 { .. }
        | StoreKind::I64_32 { .. } => ValType::I64,
        StoreKind::F32 => ValType::F32,
        StoreKind::F64 => ValType::F64,
        StoreKind::V128 => ValType::V128,
    }
}

/// A read-modify-write atomic operation.
#[derive(Clone, Copy, Debug, PartialEq, Eq, Structural)]
pub enum AtomicOp {
    Add,
    Sub,
    And,
    Or,
    Xor,
    Xchg,
}

/// The width an atomic read-modify-write operates on.
#[derive(Clone, Copy, Debug, PartialEq, Eq, Structural)]
pub enum AtomicWidth {
    I32,
    I32_8,
    I32_16,
    I64,
    I64_8,
    I64_16,
    I64_32,
}

/// The value type of an atomic access of the given width.
pub open spec fn spec_atomic_ty(w: AtomicWidth) -> ValType {
    match w {
        AtomicWidth::I32 | AtomicWidth::I32_8 | AtomicWidth::I32_16 => ValType::I32,
        AtomicWidth::I64 | AtomicWidth::I64_8 | AtomicWidth::I64_16 | AtomicWidth::I64_32
            => ValType::I64,
    }
}

/// Executable form of [`spec_atomic_ty`].
pub fn atomic_ty(w: AtomicWidth) -> (r: ValType)
    ensures r == spec_atomic_ty(w),
{
    match w {
        AtomicWidth::I32 | AtomicWidth::I32_8 | AtomicWidth::I32_16 => ValType::I32,
        AtomicWidth::I64 | AtomicWidth::I64_8 | AtomicWidth::I64_16 | AtomicWidth::I64_32
            => ValType::I64,
    }
}

/// The shape of a SIMD splatting or extending load.
#[derive(Clone, Copy, Debug, PartialEq, Eq, Structural)]
pub enum LoadSimdKind {
    Splat8,
    Splat16,
    Splat32,
    Splat64,
    I16x8Load8x8S,
    I16x8Load8x8U,
    I32x4Load16x4S,
    I32x4Load16x4U,
    I64x2Load32x2S,
    I64x2Load32x2U,
}

/// A constant operand.  `F32` and `F64` carry the IEEE-754 bit patterns
/// of the literal; `V128` carries the 128-bit value packed little-endian
/// from its 16 source bytes.
#[derive(Clone, Copy, Debug, PartialEq, Eq, Structural)]
pub enum Value {
    I32(i32),
    I64(i64),
    F32(u32),
    F64(u64),
    V128(u128),
}

/// The value type a constant pushes.
pub open spec fn spec_value_ty(v: Value) -> ValType {
    match v {
        Value::I32(_) => ValType::I32,
        Value::I64(_) => ValType::I64,
        Value::F32(_) => ValType::F32,
        Value::F64(_) => ValType::F64,
        Value::V128(_) => ValType::V128,
    }
}

/// Executable form of [`spec_value_ty`].
pub fn value_ty(v: Value) -> (r: ValType)
    ensures r == spec_value_ty(v),
{
    match v {
        Value::I32(_) => ValType::I32,
        Value::I64(_) => ValType::I64,
        Value::F32(_) => ValType::F32,
        Value::F64(_) => ValType::F64,
        Value::V128(_) => ValType::V128,
    }
}

/// A memory immediate as decoded from the wire: the alignment exponent
/// and the byte offset.
#[derive(Clone, Copy, Debug, PartialEq, Eq, Structural)]
pub struct MemImm {
    pub flags: u32,
    pub offset: u32,
}

/// The signature annotation on `block`, `loop` and `if`: empty, one
/// result type, or a reference into the module's type table.
#[derive(Clone, Copy, Debug, PartialEq, Eq, Structural)]
pub enum BlockType {
    Empty,
    Val(ValType),
    Func(u32),
}

/// The label vector of a `br_table`.
#[derive(Clone, Debug, PartialEq, Eq)]
pub struct BrTableData {
    pub labels: Vec<u32>,
    pub default: u32,
}

/// One decoded operator, as handed in by the operator-source collaborator.
/// Indices are wire indices, resolved against the module during
/// validation.
#[derive(Clone, Debug, PartialEq, Eq)]
pub enum Operator {
    Nop,
    Unreachable,
    Drop,
    Select,
    TypedSelect(ValType),
    Return,
    Const(Value),
    V128Const([u8; 16]),
    Unop(UnaryOp),
    Binop(BinaryOp),
    Block(BlockType),
    Loop(BlockType),
    If(BlockType),
    Else,
    End,
    Br(u32),
    BrIf(u32),
    BrTable(BrTableData),
    Call(u32),
    CallIndirect { type_index: u32, table_index: u32 },
    LocalGet(u32),
    LocalSet(u32),
    LocalTee(u32),
    GlobalGet(u32),
    GlobalSet(u32),
    Load { memarg: MemImm, kind: LoadKind },
    Store { memarg: MemImm, kind: StoreKind },
    MemorySize { reserved: u32 },
    MemoryGrow { reserved: u32 },
    MemoryInit { segment: u32 },
    DataDrop { segment: u32 },
    MemoryCopy,
    MemoryFill,
    AtomicFence { flags: u8 },
    AtomicRmw { memarg: MemImm, op: AtomicOp, width: AtomicWidth },
    Cmpxchg { memarg: MemImm, width: AtomicWidth },
    AtomicNotify { memarg: MemImm },
    AtomicWait { memarg: MemImm, sixty_four: bool },
    TableGet(u32),
    TableSet(u32),
    TableGrow(u32),
    TableSize(u32),
    TableFill(u32),
    RefNull(ValType),
    RefIsNull(ValType),
    RefFunc(u32),
    V128Bitselect,
    V128Swizzle,
    V128Shuffle { lanes: [u8; 16] },
    LoadSimd { memarg: MemImm, kind: LoadSimdKind },
    TableCopy { src_table: u32, dst_table: u32 },
    TableInit { segment: u32, table: u32 },
    ElemDrop { segment: u32 },
}

/// The 128-bit value of 16 bytes packed little-endian.
pub open spec fn spec_v128_val(b: Seq<u8>) -> int
    recommends b.len() == 16,
{
    b[0] + 0x100 * b[1] + 0x10000 * b[2] + 0x1000000 * b[3] + 0x100000000 * b[4] + 0x10000000000 * b[5] + 0x1000000000000 * b[6] + 0x100000000000000 * b[7] + 0x10000000000000000 * b[8] + 0x1000000000000000000 * b[9] + 0x100000000000000000000 * b[10] + 0x10000000000000000000000 * b[11] + 0x1000000000000000000000000 * b[12] + 0x100000000000000000000000000 * b[13] + 0x10000000000000000000000000000 * b[14] + 0x1000000000000000000000000000000 * b[15]
}

/// Packs a `v128` literal's 16 source bytes, little-endian, into the
/// 128-bit value the IR stores.
pub fn v128_to_u128(b: &[u8; 16]) -> (r: u128)
    ensures r as int == spec_v128_val(b@),
{
    (b[0] as u128) + 0x100u128 * (b[1] as u128) + 0x10000u128 * (b[2] as u128) + 0x1000000u128 * (b[3] as u128) + 0x100000000u128 * (b[4] as u128) + 0x10000000000u128 * (b[5] as u128) + 0x1000000000000u128 * (b[6] as u128) + 0x100000000000000u128 * (b[7] as u128) + 0x10000000000000000u128 * (b[8] as u128) + 0x1000000000000000000u128 * (b[9] as u128) + 0x100000000000000000000u128 * (b[10] as u128) + 0x10000000000000000000000u128 * (b[11] as u128) + 0x1000000000000000000000000u128 * (b[12] as u128) + 0x100000000000000000000000000u128 * (b[13] as u128) + 0x10000000000000000000000000000u128 * (b[14] as u128) + 0x1000000000000000000000000000000u128 * (b[15] as u128)
}

/// Unpacks a 128-bit value into the 16 little-endian bytes it was packed
/// from.
pub fn u128_to_v128(v: u128) -> (r: [u8; 16])
    ensures spec_v128_val(r@) == v as int,
{
    let r: [u8; 16] = [
        (v & 0xffu128) as u8,
        ((v >> 8u128) & 0xffu128) as u8,
        ((v >> 16u128) & 0xffu128) as u8,
        ((v >> 24u128) & 0xffu128) as u8,
        ((v >> 32u128) & 0xffu128) as u8,
        ((v >> 40u128) & 0xffu128) as u8,
        ((v >> 48u128) & 0xffu128) as u8,
        ((v >> 56u128) & 0xffu128) as u8,
        ((v >> 64u128) & 0xffu128) as u8,
        ((v >> 72u128) & 0xffu128) as u8,
        ((v >> 80u128) & 0xffu128) as u8,
        ((v >> 88u128) & 0xffu128) as u8,
        ((v >> 96u128) & 0xffu128) as u8,
        ((v >> 104u128) & 0xffu128) as u8,
        ((v >> 112u128) & 0xffu128) as u8,
        ((v >> 120u128) & 0xffu128) as u8,
    ];
    proof {
        assert(v == (v & 0xffu128) + 0x100u128 * ((v >> 8u128) & 0xffu128) + 0x10000u128 * ((v >> 16u128) & 0xffu128) + 0x1000000u128 * ((v >> 24u128) & 0xffu128) + 0x100000000u128 * ((v >> 32u128) & 0xffu128) + 0x10000000000u128 * ((v >> 40u128) & 0xffu128) + 0x1000000000000u128 * ((v >> 48u128) & 0xffu128) + 0x100000000000000u128 * ((v >> 56u128) & 0xffu128) + 0x10000000000000000u128 * ((v >> 64u128) & 0xffu128) + 0x1000000000000000000u128 * ((v >> 72u128) & 0xffu128) + 0x100000000000000000000u128 * ((v >> 80u128) & 0xffu128) + 0x10000000000000000000000u128 * ((v >> 88u128) & 0xffu128) + 0x1000000000000000000000000u128 * ((v >> 96u128) & 0xffu128) + 0x100000000000000000000000000u128 * ((v >> 104u128) & 0xffu128) + 0x10000000000000000000000000000u128 * ((v >> 112u128) & 0xffu128) + 0x1000000000000000000000000000000u128 * ((v >> 120u128) & 0xffu128)) by (bit_vector);
        assert((v & 0xffu128) < 256u128 && ((v >> 8u128) & 0xffu128) < 256u128 && ((v >> 16u128) & 0xffu128) < 256u128 && ((v >> 24u128) & 0xffu128) < 256u128 && ((v >> 32u128) & 0xffu128) < 256u128 && ((v >> 40u128) & 0xffu128) < 256u128 && ((v >> 48u128) & 0xffu128) < 256u128 && ((v >> 56u128) & 0xffu128) < 256u128 && ((v >> 64u128) & 0xffu128) < 256u128 && ((v >> 72u128) & 0xffu128) < 256u128 && ((v >> 80u128) & 0xffu128) < 256u128 && ((v >> 88u128) & 0xffu128) < 256u128 && ((v >> 96u128) & 0xffu128) < 256u128 && ((v >> 104u128) & 0xffu128) < 256u128 && ((v >> 112u128) & 0xffu128) < 256u128 && ((v >> 120u128) & 0xffu128) < 256u128) by (bit_vector);
        assert(r@[0] == ((v & 0xffu128) as u8));
        assert(r@[1] == (((v >> 8u128) & 0xffu128) as u8));
        assert(r@[2] == (((v >> 16u128) & 0xffu128) as u8));
        assert(r@[3] == (((v >> 24u128) & 0xffu128) as u8));
        assert(r@[4] == (((v >> 32u128) & 0xffu128) as u8));
        assert(r@[5] == (((v >> 40u128) & 0xffu128) as u8));
        assert(r@[6] == (((v >> 48u128) & 0xffu128) as u8));
        assert(r@[7] == (((v >> 56u128) & 0xffu128) as u8));
        assert(r@[8] == (((v >> 64u128) & 0xffu128) as u8));
        assert(r@[9] == (((v >> 72u128) & 0xffu128) as u8));
        assert(r@[10] == (((v >> 80u128) & 0xffu128) as u8));
        assert(r@[11] == (((v >> 88u128) & 0xffu128) as u8));
        assert(r@[12] == (((v >> 96u128) & 0xffu128) as u8));
        assert(r@[13] == (((v >> 104u128) & 0xffu128) as u8));
        assert(r@[14] == (((v >> 112u128) & 0xffu128) as u8));
        assert(r@[15] == (((v >> 120u128) & 0xffu128) as u8));
    }
    r
}

} // verus!
