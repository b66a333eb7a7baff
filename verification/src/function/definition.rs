//! A function definition of either kind, owned.
use vstd::prelude::*;
use crate::data_type::DataType;
use crate::errors::{CompileError, view_result};
use super::definition_ref::{FunctionDefinitionRef, spec_check_types};
use super::external::ExternalFunctionDefinition;
use super::internal::InternalFunctionDefinition;

verus! {

/// A host function or an in-language function.
#[derive(Debug)]
pub enum FunctionDefinition {
    External(ExternalFunctionDefinition),
    Internal(InternalFunctionDefinition),
}

impl FunctionDefinition {
    /// The function's name.
    pub open spec fn spec_name(&self) -> Seq<char> {
        match self {
            FunctionDefinition::External(f) => f.name@,
            FunctionDefinition::Internal(f) => f.name@,
        }
    }

    /// The function's return type.
    pub open spec fn spec_return_type(&self) -> DataType {
        match self {
            FunctionDefinition::External(f) => f.return_type,
            FunctionDefinition::Internal(f) => f.return_type,
        }
    }

    /// The types of the function's parameters, in order.
    pub open spec fn param_types(&self) -> Seq<DataType> {
        match self {
            FunctionDefinition::External(f) => f.params@,
            FunctionDefinition::Internal(f) => f.params@.map_values(|p: (String, DataType)| p.1),
        }
    }

    pub fn name(&self) -> (n: &str)
        ensures
            n@ == self.spec_name(),
    {
        match self {
            FunctionDefinition::External(f) => f.name.as_str(),
            FunctionDefinition::Internal(f) => f.name.as_str(),
        }
    }

    pub fn return_type(&self) -> (t: DataType)
        ensures
            t == self.spec_return_type(),
    {
        match self {
            FunctionDefinition::External(f) => f.return_type.duplicate(),
            FunctionDefinition::Internal(f) => f.return_type.duplicate(),
        }
    }

    /// Checks a call's argument types: first their count, then each type in
    /// order; the first difference is the error.
    pub fn check_types(&self, types: &[DataType]) -> (r: Result<(), CompileError>)
        ensures
            view_result(r) == spec_check_types(self.param_types(), types@),
    {
        match self {
            FunctionDefinition::External(f) => FunctionDefinitionRef::External(f).check_arg_types(types),
            FunctionDefinition::Internal(f) => FunctionDefinitionRef::Internal(f).check_arg_types(types),
        }
    }
}

} // verus!
