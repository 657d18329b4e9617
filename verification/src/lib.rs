//! An interactive arithmetic expression evaluator, in three verified stages:
//! a lexer that turns a line of text into tokens, a parser that grows a
//! binary expression tree from the tokens, and a tree-walking interpreter
//! that evaluates the tree against a mutable variable environment.

pub mod token;
pub mod ast;
pub mod env;
pub mod lexer;
pub mod laws;
pub mod interpreter;
pub mod parser;
