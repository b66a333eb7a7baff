//! A compiled function body with the number of local slots it uses.
use vstd::prelude::*;
use crate::instruction::Instruction;

verus! {

#[derive(Debug)]
pub struct FunctionSource {
    pub slot_count: usize,
    pub body: Vec<Instruction>,
}

impl FunctionSource {
    pub fn new(slot_count: usize, body: Vec<Instruction>) -> (s: Self)
        ensures
            s == (FunctionSource { slot_count, body }),
    {
        FunctionSource { slot_count, body }
    }
}

} // verus!
