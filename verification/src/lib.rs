//! Compiler for a small declarative language of kernel-hook handler units
//! and shared key/value maps: parsing, semantic validation, lowering to a
//! basic-block intermediate representation, and emission of hook-specific
//! target source text.

pub mod ast;
pub mod compiler;
pub mod diagnostics;
pub mod emit;
pub mod ir;
pub mod lexer;
pub mod parser;
pub mod sema;
pub mod source_manager;
pub mod strutil;
pub mod token;

pub use compiler::{compile_source, CompileError};
pub use token::{SourceLoc, Token, TokenKind};
