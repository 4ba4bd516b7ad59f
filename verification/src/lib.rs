//! Lexical and syntactic front end of the Lox scripting language: a scanner
//! from source text to tokens and a recursive-descent parser from tokens to
//! an expression tree, each proved against a mathematical model of its
//! result.

pub mod tokentype;
pub mod token;
pub mod diagnostics;
pub mod lexing;
pub mod scanned;
pub mod text;
pub mod scanner;
pub mod expr;
pub mod syntax_error;
pub mod grammar;
pub mod progress;
pub mod reading;
pub mod precedence;
pub mod extent;
pub mod parser;
pub mod run;
