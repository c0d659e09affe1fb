//! A typed lowering pipeline for a small expression-oriented source
//! language: a type checker that validates an abstract syntax tree, a
//! code generator that lowers the validated tree to a block-structured
//! C++ program body, and a block assembler that renders the nested
//! block tree to text.

pub mod ast;
pub mod blocks;
pub mod codegen;
pub mod text;
pub mod typeck;
