pub mod ast;
pub mod codegen;
pub mod error;
pub mod lexer;
pub mod parser;
