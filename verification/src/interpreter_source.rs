//! The functions an interpreter runs and the slot of the first one.
use vstd::prelude::*;
use crate::function_source::FunctionSource;

verus! {

#[derive(Debug)]
pub struct InterpreterSource {
    pub functions: Vec<FunctionSource>,
    pub main_slot: usize,
}

impl InterpreterSource {
    pub fn new(functions: Vec<FunctionSource>, main_slot: usize) -> (s: Self)
        ensures
            s == (InterpreterSource { functions, main_slot }),
    {
        InterpreterSource { functions, main_slot }
    }
}

} // verus!
