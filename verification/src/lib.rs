//! A simulator core for a reduced, MIPS-like 32-bit instruction set.
//!
//! The crate decodes 32-bit machine words into instruction forms and applies
//! their semantics to a machine made of a register file, a program counter
//! and a sparse data memory.

pub mod bits;
pub mod decode;
pub mod exec;
pub mod fault;
pub mod loader;
pub mod run;
pub mod state;
