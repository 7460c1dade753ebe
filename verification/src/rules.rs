//! The plural-rule grammar engine: lexing and parsing of CLDR rule-condition
//! strings into an abstract syntax tree, and evaluation of the tree against
//! the operands of a number.

pub mod ast;
pub mod lexer;
pub mod parser;
pub mod resolver;
