//! A lossless lexer and an error-tolerant recursive-descent parser for a small
//! expression language, building concrete syntax trees.

pub mod syntax;
pub mod lexer;
pub mod green;
pub mod parser;
