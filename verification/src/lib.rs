//! A compiler, binary codec and stack virtual machine for a tiny
//! print-only scripting language.
//!
//! The pipeline runs source text through the lexer, parser and lowering
//! stages into an intermediate representation, compiles that into a
//! `BytecodeModule` (a deduplicated constant pool plus a byte-encoded
//! instruction stream), and then either executes the module on the
//! virtual machine, persists it with the binary codec, or renders it as
//! a byte-array literal for embedding into generated source.

pub mod ast;
pub mod bundler;
pub mod bytecode;
pub mod cli;
pub mod compiler;
pub mod ir;
pub mod lexer;
pub mod lowering;
pub mod parser;
pub mod serializer;
pub mod text;
pub mod vm;
