//! Compiled functions together with the slot of the one to run first.
use vstd::prelude::*;
use crate::function::InternalFunctionSource;

verus! {

#[derive(Debug)]
pub struct ExecutableModule {
    pub functions: Vec<InternalFunctionSource>,
    pub main_slot: u32,
}

impl ExecutableModule {
    pub fn new(functions: Vec<InternalFunctionSource>, main_slot: u32) -> (m: Self)
        ensures
            m == (ExecutableModule { functions, main_slot }),
    {
        ExecutableModule { functions, main_slot }
    }
}

} // verus!
