//! An assembler and virtual machine for a small MIPS-like assembly language.
//!
//! Source text is parsed into [`bytecode::AsmInstruction`]s, each instruction is
//! lowered into a short [`bytecode::Bytecode`] sequence, and the resulting program
//! runs on a register-plus-stack [`virtual_machine::VirtualMachine`].  A
//! [`debug_table::CompileDebugInfo`] maps every bytecode index back to the source
//! instruction it came from, so that a failure can be traced to its source line.
//!
//! * [`registers`], [`bytecode`], [`instructions`]: the vocabulary.
//! * [`span`], [`grammar`], [`numbers`], [`parser`], [`parser_utils`], [`err_util`],
//!   [`data`], [`labels`]: the assembler.
//! * [`debug_table`]: debug info and the execution trace.
//! * [`memory`], [`virtual_machine`], [`error`]: the machine.
//! * [`semantics`]: what instructions mean, and that lowering keeps their meaning.

pub mod bytecode;
pub mod data;
pub mod debug_table;
pub mod err_util;
pub mod error;
pub mod grammar;
pub mod instructions;
pub mod labels;
pub mod memory;
pub mod numbers;
pub mod parser;
pub mod parser_utils;
pub mod registers;
pub mod semantics;
pub mod span;
pub mod virtual_machine;
