use vstd::prelude::*;
use crate::text::{push_decimal, push_signed_decimal, push_str, string_of};

verus! {

/// Errors raised while a module runs.
#[derive(Debug, Clone)]
pub enum RuntimeError {
    InvalidHeapHandle,
    ValueStackUnderflow,
    DivisionByZero,
    Unknown,
    /// Any type error. These are caught by the type checker; this one is a fallback.
    TypeError,
    FunctionDidNotReturn,
    AssertionFailed,
    IndexOutOfBounds { index: i32, size: u32 },
    Other(String),
}

/// The text that describes a runtime error.
pub open spec fn spec_runtime_error_message(e: RuntimeError) -> Seq<char> {
    match e {
        RuntimeError::ValueStackUnderflow => "Value stack underflow"@,
        RuntimeError::DivisionByZero => "Division by zero"@,
        RuntimeError::Unknown => "Unknown runtime error"@,
        RuntimeError::TypeError => "Type error"@,
        RuntimeError::FunctionDidNotReturn => "Function did not return a value"@,
        RuntimeError::AssertionFailed => "Assertion failed"@,
        RuntimeError::IndexOutOfBounds { index, size } =>
            "Index out of bounds: the len is "@ + crate::text::decimal(size as nat)
                + " but the index is "@ + crate::text::signed_decimal(index as int),
        RuntimeError::InvalidHeapHandle => "Invalid heap handle"@,
        RuntimeError::Other(msg) => msg@,
    }
}

impl RuntimeError {
    pub fn index_out_of_bounds(index: i32, size: u32) -> (e: Self)
        ensures
            e == (RuntimeError::IndexOutOfBounds { index, size }),
    {
        RuntimeError::IndexOutOfBounds { index, size }
    }

    /// The text that describes this error (what `Display` prints for it).
    pub fn to_message(&self) -> (s: String)
        ensures
            s@ == spec_runtime_error_message(*self),
    {
        proof {
            reveal_strlit("Value stack underflow");
            reveal_strlit("Division by zero");
            reveal_strlit("Unknown runtime error");
            reveal_strlit("Type error");
            reveal_strlit("Function did not return a value");
            reveal_strlit("Assertion failed");
            reveal_strlit("Index out of bounds: the len is ");
            reveal_strlit(" but the index is ");
            reveal_strlit("Invalid heap handle");
        }
        match self {
            RuntimeError::ValueStackUnderflow => string_of("Value stack underflow"),
            RuntimeError::DivisionByZero => string_of("Division by zero"),
            RuntimeError::Unknown => string_of("Unknown runtime error"),
            RuntimeError::TypeError => string_of("Type error"),
            RuntimeError::FunctionDidNotReturn => string_of("Function did not return a value"),
            RuntimeError::AssertionFailed => string_of("Assertion failed"),
            RuntimeError::IndexOutOfBounds { index, size } => {
                let mut s = string_of("Index out of bounds: the len is ");
                push_decimal(&mut s, *size as u64);
                push_str(&mut s, " but the index is ");
                push_signed_decimal(&mut s, *index as i64);
                assert(s@ =~= spec_runtime_error_message(*self));
                s
            },
            RuntimeError::InvalidHeapHandle => string_of("Invalid heap handle"),
            RuntimeError::Other(msg) => msg.clone(),
        }
    }
}

} // verus!
