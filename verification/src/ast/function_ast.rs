use vstd::prelude::*;
use crate::data_type::DataType;
use crate::diagnostics::Span;
use crate::errors::{CompileError, CompileErrorView, view_result, spec_wrong_number_of_arguments_at, spec_wrong_type_at};

verus! {

/// A function's signature as written in the source, with spans.
#[derive(Debug)]
pub struct SpannedFunctionSigniture {
    pub return_type: DataType,
    pub params: Vec<SpannedParameter>,
    pub span: Span,
}

#[derive(Debug)]
pub struct SpannedParameter {
    pub name: String,
    pub data_type: DataType,
    pub span: Span,
}

/// Checks arguments `args` (type and span of each) against parameters
/// `params` from the `i`-th on: the first argument whose type differs from
/// its parameter's is reported.
pub open spec fn spec_check_args_from(params: Seq<SpannedParameter>, args: Seq<(DataType, Span)>, i: int) -> Result<(), CompileErrorView>
    decreases params.len() - i,
{
    if i >= params.len() || i >= args.len() {
        Ok(())
    } else if args[i].0 != params[i].data_type {
        Err(spec_wrong_type_at(params[i].data_type, args[i].0, args[i].1))
    } else {
        spec_check_args_from(params, args, i + 1)
    }
}

/// A call with arguments `args` against parameters `params`: the counts must
/// agree, and then each argument's type must equal its parameter's.
pub open spec fn spec_check_arguments(params: Seq<SpannedParameter>, args: Seq<(DataType, Span)>, call_span: Span) -> Result<(), CompileErrorView> {
    if params.len() != args.len() {
        Err(spec_wrong_number_of_arguments_at(params.len() as int, args.len() as int, call_span))
    } else {
        spec_check_args_from(params, args, 0)
    }
}

impl SpannedFunctionSigniture {
    pub fn new(return_type: DataType, params: Vec<SpannedParameter>, span: Span) -> (s: Self)
        ensures
            s == (SpannedFunctionSigniture { return_type, params, span }),
    {
        Self { return_type, params, span }
    }

    pub fn check_argument_types(&self, args: &[(DataType, Span)], call_span: Span) -> (r: Result<(), CompileError>)
        ensures
            view_result(r) == spec_check_arguments(self.params@, args@, call_span),
    {
        if self.params.len() != args.len() {
            return Err(CompileError::wrong_number_of_arguments_at(self.params.len(), args.len(), call_span));
        }
        let mut i: usize = 0;
        while i < self.params.len()
            invariant
                self.params@.len() == args@.len(),
                i <= self.params@.len(),
                spec_check_args_from(self.params@, args@, 0) == spec_check_args_from(self.params@, args@, i as int),
            decreases self.params@.len() - i,
        {
            let (arg_type, arg_span) = &args[i];
            if !arg_type.equals(&self.params[i].data_type) {
                return Err(CompileError::wrong_type_at(self.params[i].data_type.duplicate(), arg_type.duplicate(), *arg_span));
            }
            i = i + 1;
        }
        Ok(())
    }
}

impl SpannedParameter {
    pub fn new(name: String, data_type: DataType, span: Span) -> (p: Self)
        ensures
            p == (SpannedParameter { name, data_type, span }),
    {
        Self { name, data_type, span }
    }
}

} // verus!
