//! Back end of a small expression language: an intermediate representation of
//! basic blocks with explicit inter-block value passing, and a stack-based
//! virtual machine that executes that representation while recording a
//! complete, ordered execution trace.

pub mod ast;
pub mod bigint;
pub mod ir;
pub mod lexer;
pub mod token;
pub mod vm;
