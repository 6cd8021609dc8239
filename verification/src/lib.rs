//! A small fantasy virtual machine: a fixed-width bytecode interpreter with
//! an assembler for a line-oriented textual assembly language and a
//! disassembler that reverses the encoding.
//!
//! The instruction table (name, opcode, operand shape) is the shared contract
//! of the encoder, the decoder, the execution engine and the assembler; the
//! modules below are all written against it and proved consistent with it.

pub mod arguments;
pub mod assembler;
pub mod disasm;
pub mod helpers;
pub mod memory;
pub mod mnemonics;
pub mod op;
pub mod panic_report;
pub mod parsing;
pub mod passes;
pub mod register;
pub mod runner;
pub mod signals;
pub mod text;
pub mod vm;
