//! A small stack-based bytecode machine: a value domain with shared arrays
//! and dictionaries, an assembler from named locals and symbolic labels to
//! numbered code, and an interpreter with an explicit call stack, each stated
//! and proved against its mathematical model.
pub mod builder;
pub mod display;
pub mod error;
pub mod heap;
pub mod laws;
pub mod machine;
pub mod prelude;
pub mod program;
pub mod runtime;
pub mod variant;
