//! A two-pass assembler for a small RISC-V subset, with a matching
//! instruction-execution engine.
//!
//! Source text is tokenized, parsed into native instructions (pseudo-instructions
//! are expanded on the way), laid out in memory, and encoded as little-endian
//! 32-bit words. Every stage is specified by a mathematical model and proved
//! to compute exactly that model.

pub mod error;
pub mod names;
pub mod tokenizer;
pub mod cpu;
pub mod numeral;
pub mod encode;
pub mod parser;
pub mod layout;
pub mod codegen;
pub mod assembler;
