//! Functions that the host provides, described by their types.
use vstd::prelude::*;
use crate::data_type::DataType;

verus! {

/// A host function: its name, return type and parameter types.
#[derive(Debug)]
pub struct ExternalFunctionDefinition {
    pub name: String,
    pub return_type: DataType,
    pub params: Vec<DataType>,
}

impl ExternalFunctionDefinition {
    pub fn new(name: String, return_type: DataType, params: Vec<DataType>) -> (d: Self)
        ensures
            d == (ExternalFunctionDefinition { name, return_type, params }),
    {
        ExternalFunctionDefinition { name, return_type, params }
    }
}

} // verus!
