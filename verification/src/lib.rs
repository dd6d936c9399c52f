//! A small tile-scripting language: a module store, a parser for the
//! indentation-based surface syntax, and a tree-walking interpreter that
//! drives a host environment.

pub mod assoc;
pub mod backend;
pub mod compiler;
pub mod fuel;
pub mod grammar;
pub mod laws;
pub mod meaning;
pub mod lexer;
pub mod parser;
pub mod syntax;
pub mod value;
pub mod scope;
pub mod semantics;

pub use crate::compiler::Compiler;
