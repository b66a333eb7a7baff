use vstd::prelude::*;

verus! {

/// Errors of the interpreter of an earlier design of the language.
#[derive(Debug, Clone)]
pub enum InterpreterError {
    ValueStackUnderflow,
    DivisionByZero,
    Unknown,
    /// Any type error. These are caught by the type checker; this one is a fallback.
    TypeError,
}

} // verus!
