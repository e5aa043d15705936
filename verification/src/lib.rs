//! Front end of a compiler for SNL, a small Pascal-like teaching language.
//!
//! The crate lexes source text into tokens, parses the token stream into a
//! syntax tree by recursive descent, and runs a semantic analysis over the
//! tree: scope-based symbol resolution and a structural type system that
//! produce a complete, ordered list of diagnostics.

pub mod text;
pub mod token;
pub mod ast;
pub mod tokens;
pub mod canonical;
pub mod symbol;
pub mod error;
pub mod rules;
pub mod semantic;
pub mod laws;
pub mod lexer;
pub mod parser;
pub mod sig;
