//! The query language.
pub mod ast;
pub mod compile;
pub mod field;
pub mod grammar;
pub mod lexer;
pub mod meaning;
pub mod parens;
pub mod parse;
pub mod reltime;
pub mod terms;
