use vstd::prelude::*;

verus! {

/// An assembly error: the source line (0 when no line applies) and a message.
#[derive(Debug)]
pub struct AsmError {
    pub line: usize,
    pub message: String,
}

impl AsmError {
    pub fn new(line: usize, message: String) -> (e: Self)
        ensures
            e.line == line,
            e.message@ == message@,
    {
        AsmError { line, message }
    }
}

pub type AsmResult<T> = Result<T, AsmError>;

} // verus!
