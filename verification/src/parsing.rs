//! From source text to tokens, and from tokens to the syntax tree.

pub mod ast_parser;
pub mod parser;
pub mod tree;
