//! Function signatures with named parameters, as the first compiler kept them.
use vstd::prelude::*;
use crate::data_type::DataType;
use crate::diagnostics::Span;
use crate::errors::{CompileError, CompileErrorView, view_result, spec_wrong_number_of_arguments_at, spec_wrong_type_at};

verus! {

#[derive(Debug)]
pub struct Parameter {
    pub name: String,
    pub data_type: DataType,
}

impl Parameter {
    pub fn new(name: String, data_type: DataType) -> (p: Self)
        ensures
            p == (Parameter { name, data_type }),
    {
        Parameter { name, data_type }
    }
}

/// A function's return type and parameters.
#[derive(Debug)]
pub struct FunctionSigniture {
    pub return_type: DataType,
    pub params: Vec<Parameter>,
}

/// Checks arguments (type and span of each) against parameters from the
/// `i`-th on: the first argument whose type differs from its parameter's is
/// reported at the argument.
pub open spec fn spec_check_params_from(params: Seq<Parameter>, args: Seq<(DataType, Span)>, i: int) -> Result<(), CompileErrorView>
    decreases params.len() - i,
{
    if i >= params.len() || i >= args.len() {
        Ok(())
    } else if args[i].0 != params[i].data_type {
        Err(spec_wrong_type_at(params[i].data_type, args[i].0, args[i].1))
    } else {
        spec_check_params_from(params, args, i + 1)
    }
}

/// A call with arguments `args` against `params`: the counts must agree,
/// then each argument's type must equal its parameter's.
pub open spec fn spec_check_params(params: Seq<Parameter>, args: Seq<(DataType, Span)>, call_span: Span) -> Result<(), CompileErrorView> {
    if params.len() != args.len() {
        Err(spec_wrong_number_of_arguments_at(params.len() as int, args.len() as int, call_span))
    } else {
        spec_check_params_from(params, args, 0)
    }
}

impl FunctionSigniture {
    pub fn new(return_type: DataType, params: Vec<Parameter>) -> (s: Self)
        ensures
            s == (FunctionSigniture { return_type, params }),
    {
        FunctionSigniture { return_type, params }
    }

    /// Checks the types of a call's arguments against the parameters.
    pub fn check_argument_types(&self, args: &[(DataType, Span)], call_span: Span) -> (r: Result<(), CompileError>)
        ensures
            view_result(r) == spec_check_params(self.params@, args@, call_span),
    {
        if self.params.len() != args.len() {
            return Err(CompileError::wrong_number_of_arguments_at(self.params.len(), args.len(), call_span));
        }
        let mut i: usize = 0;
        while i < self.params.len()
            invariant
                self.params@.len() == args@.len(),
                i <= self.params@.len(),
                spec_check_params_from(self.params@, args@, 0) == spec_check_params_from(self.params@, args@, i as int),
            decreases self.params@.len() - i,
        {
            let (arg_type, arg_span) = (&args[i].0, args[i].1);
            if !arg_type.equals(&self.params[i].data_type) {
                return Err(CompileError::wrong_type_at(self.params[i].data_type.duplicate(), arg_type.duplicate(), arg_span));
            }
            i = i + 1;
        }
        Ok(())
    }
}

} // verus!
