//! The calculation-procedure language: lexer, parser and preparation of
//! procedures for evaluation.

pub mod expression_nodes;
pub mod grammar;
pub mod parser;
pub mod tokens;
pub mod patterns;
pub mod maps;
pub mod lexer;
pub mod prepare;
