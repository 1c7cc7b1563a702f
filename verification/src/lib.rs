//! A small interactive arithmetic language: a lexer that turns a line of text
//! into tokens, a parser that builds an expression tree by operator priority,
//! and an evaluator that reduces the tree to a typed value.

pub mod executer;
pub mod fp;
pub mod lexer;
pub mod parser;
