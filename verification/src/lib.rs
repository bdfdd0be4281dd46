//! A verified compiler for a small declarative template language that
//! produces indented HTML text.
//!
//! The pipeline: a [`lexer::Lexer`] turns source text into tokens, a
//! [`parser::Parser`] builds an abstract syntax tree while filling a
//! [`symbol_table::SymbolTable`], and a [`gen::Gen`] walks the tree,
//! deciding with an [`eval::Evaluator`] what to emit through an
//! [`emit::Emitter`].  A [`compiler::Compiler`] runs the whole of it
//! for one template, and [`laws`] states and proves what the pipeline
//! guarantees.

pub mod ast;
pub mod compiler;
pub mod emit;
pub mod eval;
pub mod gen;
pub mod error;
pub mod laws;
pub mod lexer;
pub mod parser;
pub mod reserved;
pub mod strutil;
pub mod symbol_table;
pub mod token;
