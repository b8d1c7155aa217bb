//! Validation errors.  Every failure aborts the current function's parse;
//! the error carries the byte offset of the offending operator.

use vstd::prelude::*;

verus! {

/// The kind of a validation failure.
#[derive(Clone, Copy, Debug, PartialEq, Eq, Structural)]
pub enum ErrorKind {
    /// The body ended without a terminating `end`.
    UnexpectedEof,
    /// A pop would go below the current frame's height while the frame is
    /// reachable.
    StackUnderflow,
    /// An operand type does not unify with the expected type, a block left
    /// the wrong stack, `br_table` labels are non-uniform, or table
    /// copy/init element types differ.
    TypeMismatch,
    /// A branch depth exceeds the control stack.
    UnknownLabel,
    /// An index did not resolve to an entity of the module.
    UnknownIndex,
    /// A memory immediate's alignment exponent is 32 or more.
    InvalidAlignment,
    /// A non-zero reserved byte in `memory.size` or `memory.grow`.
    MalformedReservedByte,
    /// An `else` without a matching `if`, or a second `else` for one `if`.
    StrayElse,
    /// `atomic.fence` with non-zero flags.
    UnsupportedAtomicFence,
    /// The operator stream itself is malformed (a decoder-level failure,
    /// or operators that continue after the terminating `end`).
    MalformedOperator,
}

/// A validation error: the kind, and the source byte offset of the
/// operator that caused it.
#[derive(Clone, Copy, Debug, PartialEq, Eq, Structural)]
pub struct ValError {
    pub kind: ErrorKind,
    pub offset: u32,
}

} // verus!
