//! Core of a MIPS assembly interpreter front end: a tokenizer and line
//! classifier that turn raw source lines into typed components, a sparse
//! paged byte memory with fault signalling, and a register file addressed
//! by canonical MIPS register names.

pub mod memory;
pub mod mips_parser;
pub mod runtime;
pub mod smart_split;
