use vstd::prelude::*;

pub mod error;
pub mod token;
pub mod lexer;
pub mod ast;
pub mod grammar;
pub mod parser;
pub mod analyzer;
pub mod bytecode;
pub mod codegen;
pub mod compiler;
pub mod pipeline;
pub mod natives;
pub mod methods;
pub mod operations;
