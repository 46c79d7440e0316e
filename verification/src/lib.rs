//! Bookkeeping for a two-pass arithmetic-circuit rewrite pipeline.
//!
//! The `compiler` module keeps track of how opcode positions move while a
//! circuit is optimized and decomposed to a target expression width, and uses
//! that record to relocate debug annotations onto the rewritten opcodes.
//! The `ast` module holds the typed, monomorphic program representation that
//! the circuit generator consumes.

pub mod ast;
pub mod compiler;
