//! Single-pass validator and IR builder for WebAssembly function bodies.
//!
//! The crate fuses two passes over a decoded operator stream: a
//! stack-discipline type checker over the Wasm value stack, and the
//! linearisation-to-tree transformation that turns the flat operator
//! sequence into nested instruction sequences owned by an arena.
//! Collaborators (the operator decoder, the module's tables, the binary
//! re-encoder) are consumed through plain-data interfaces.

pub mod types;
pub mod err;
pub mod ops;
pub mod ir;
pub mod validate;
pub mod step;
pub mod driver;
pub mod function;
pub mod encode;
pub mod emit;
