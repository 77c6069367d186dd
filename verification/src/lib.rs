//! A verified compiler for a block-structured page description language.
//!
//! A source text goes through three stages. The scanner ([`lexer`], defined in [`scan`])
//! turns characters into tokens; the parser ([`parser`], defined in [`grammar`]) turns the
//! significant tokens into a syntax tree ([`ast`]); the emitter ([`codegen`], defined in
//! [`emit`]) turns the tree into three texts: markup, a style sheet and a script.
//! [`compiler`] runs the three in order. Every stage is total: it has a result for every
//! input, and its contract says which.

pub mod ast;
pub mod codegen;
pub mod compiler;
pub mod emit;
pub mod grammar;
pub mod lexer;
pub mod parser;
pub mod scan;
pub mod text;
pub mod token;
