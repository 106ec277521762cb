//! A small dynamically typed scripting language: a lexer, a recursive-descent
//! parser and an interpreter that advances one step at a time, handing every
//! piece of outside work (console, clock, files, floating point) to its host.

pub mod text;
pub mod pattern;
pub mod chance;
pub mod lexer;
pub mod ast;
pub mod value;
pub mod grammar;
pub mod parser;
pub mod errors;
pub mod host;
pub mod table;
pub mod rules;
pub mod ops;
pub mod scope;
pub mod task;
pub mod machine;
pub mod interpreter;
pub mod diagnostics;
pub mod laws;
pub mod roundtrip;
pub mod accepted;
pub mod canonical;
pub mod calls;
pub mod loops;
pub mod statements;
