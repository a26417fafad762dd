//! A small register machine: a bank of 32 signed registers, a byte program,
//! a growable heap and an equality flag, driven by a fixed-width bytecode,
//! with an assembler for single lines and the decisions of an interactive shell.
pub mod assembler;
pub mod instruction;
pub mod laws;
pub mod opcode;
pub mod repl;
pub mod symbol;
pub mod text;
pub mod vm;

pub use assembler::{AssemblyParser, ParseError};
pub use instruction::Instruction;
pub use opcode::Opcode;
pub use repl::{ReplAction, REPL};
pub use symbol::{Symbol, SymbolTable, SymbolType};
pub use vm::{Fault, RunEnd, VM};
