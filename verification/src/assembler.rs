pub mod ast;
pub mod error;
pub mod instruction;
pub mod layout;
pub mod symbol_table;
pub mod lexer;
pub mod parser;
pub mod codegen;
