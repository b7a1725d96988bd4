//! Errors of the compiler.
use vstd::prelude::*;

verus! {

#[derive(Debug)]
pub enum CompileError {
    Lex { line: usize, msg: String },
    Parse { line: usize, msg: String },
    Codegen(String),
}

pub type Result<T> = std::result::Result<T, CompileError>;

} // verus!
