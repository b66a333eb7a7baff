//! A borrowed function definition of either kind, and how a call's argument
//! types are checked against it.
use vstd::prelude::*;
use crate::data_type::DataType;
use crate::errors::{CompileError, CompileErrorView, view_result, spec_wrong_number_of_arguments, spec_wrong_type};
use super::external::ExternalFunctionDefinition;
use super::internal::InternalFunctionDefinition;

verus! {

/// Checks argument types against parameter types from the `i`-th on: the
/// first argument whose type differs from its parameter's is reported.
pub open spec fn spec_check_types_from(expected: Seq<DataType>, found: Seq<DataType>, i: int) -> Result<(), CompileErrorView>
    decreases expected.len() - i,
{
    if i >= expected.len() || i >= found.len() {
        Ok(())
    } else if found[i] != expected[i] {
        Err(spec_wrong_type(expected[i], found[i]))
    } else {
        spec_check_types_from(expected, found, i + 1)
    }
}

/// A call's argument types against a function's parameter types: first the
/// count, then each type in order.
pub open spec fn spec_check_types(expected: Seq<DataType>, found: Seq<DataType>) -> Result<(), CompileErrorView> {
    if expected.len() != found.len() {
        Err(spec_wrong_number_of_arguments(expected.len() as int, found.len() as int))
    } else {
        spec_check_types_from(expected, found, 0)
    }
}

/// A host function or an in-language function, borrowed.
#[derive(Debug)]
pub enum FunctionDefinitionRef<'a> {
    External(&'a ExternalFunctionDefinition),
    Internal(&'a InternalFunctionDefinition),
}

impl<'a> FunctionDefinitionRef<'a> {
    /// The function's name.
    pub open spec fn spec_name(&self) -> Seq<char> {
        match *self {
            FunctionDefinitionRef::External(f) => f.name@,
            FunctionDefinitionRef::Internal(f) => f.name@,
        }
    }

    /// The function's return type.
    pub open spec fn spec_return_type(&self) -> DataType {
        match *self {
            FunctionDefinitionRef::External(f) => f.return_type,
            FunctionDefinitionRef::Internal(f) => f.return_type,
        }
    }

    /// The types of the function's parameters, in order.
    pub open spec fn param_types(&self) -> Seq<DataType> {
        match *self {
            FunctionDefinitionRef::External(f) => f.params@,
            FunctionDefinitionRef::Internal(f) => f.params@.map_values(|p: (String, DataType)| p.1),
        }
    }

    pub fn name(&self) -> (n: &str)
        ensures
            n@ == self.spec_name(),
    {
        match *self {
            FunctionDefinitionRef::External(f) => f.name.as_str(),
            FunctionDefinitionRef::Internal(f) => f.name.as_str(),
        }
    }

    pub fn return_type(&self) -> (t: DataType)
        ensures
            t == self.spec_return_type(),
    {
        match *self {
            FunctionDefinitionRef::External(f) => f.return_type.duplicate(),
            FunctionDefinitionRef::Internal(f) => f.return_type.duplicate(),
        }
    }

    pub fn arg_count(&self) -> (n: usize)
        ensures
            n == self.param_types().len(),
    {
        match *self {
            FunctionDefinitionRef::External(f) => f.params.len(),
            FunctionDefinitionRef::Internal(f) => f.params.len(),
        }
    }

    /// The type of the `i`-th parameter.
    fn param_type(&self, i: usize) -> (t: DataType)
        requires
            i < self.param_types().len(),
        ensures
            t == self.param_types()[i as int],
    {
        match *self {
            FunctionDefinitionRef::External(f) => f.params[i].duplicate(),
            FunctionDefinitionRef::Internal(f) => f.params[i].1.duplicate(),
        }
    }

    /// Checks a call's argument types: the error says how many arguments
    /// were wanted, or which type was wanted where another was found.
    pub fn check_arg_types(&self, types: &[DataType]) -> (r: Result<(), CompileError>)
        ensures
            view_result(r) == spec_check_types(self.param_types(), types@),
    {
        let n = self.arg_count();
        check_arg_count(n, types.len())?;
        let mut i: usize = 0;
        while i < n
            invariant
                n == self.param_types().len(),
                n == types@.len(),
                i <= n,
                spec_check_types_from(self.param_types(), types@, 0) == spec_check_types_from(self.param_types(), types@, i as int),
            decreases n - i,
        {
            let expected = self.param_type(i);
            check_single_arg(expected, types[i].duplicate())?;
            i = i + 1;
        }
        Ok(())
    }
}

/// Fails when the count of arguments differs from the count of parameters.
fn check_arg_count(expected: usize, found: usize) -> (r: Result<(), CompileError>)
    ensures
        expected == found ==> r is Ok,
        expected != found ==> (r matches Err(e) && e@ == spec_wrong_number_of_arguments(expected as int, found as int)),
{
    if expected != found {
        return Err(CompileError::wrong_number_of_arguments(expected, found));
    }
    Ok(())
}

/// Fails when an argument's type differs from its parameter's.
fn check_single_arg(expected: DataType, found: DataType) -> (r: Result<(), CompileError>)
    ensures
        expected == found ==> r is Ok,
        expected != found ==> (r matches Err(e) && e@ == spec_wrong_type(expected, found)),
{
    if !expected.equals(&found) {
        return Err(CompileError::wrong_type(expected, found));
    }
    Ok(())
}

} // verus!
