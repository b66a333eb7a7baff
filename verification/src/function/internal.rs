use vstd::prelude::*;
use crate::ast::SpannedParameter;
use crate::data_type::DataType;
use crate::errors::{CompileError, CompileErrorView, view_result, spec_wrong_number_of_arguments, spec_wrong_type};
use crate::instruction::{Instruction, InstructionView};

verus! {

/// Signature of an in-language function, without its name.
#[derive(Debug)]
pub struct InternalFunctionSigniture {
    pub return_type: DataType,
    pub params: Vec<(String, DataType)>,
}

/// Checks argument types against the parameters from the `i`-th on: the first
/// argument whose type differs from its parameter's is reported.
pub open spec fn spec_check_arg_types_from(params: Seq<(String, DataType)>, args: Seq<DataType>, i: int) -> Result<(), CompileErrorView>
    decreases params.len() - i,
{
    if i >= params.len() || i >= args.len() {
        Ok(())
    } else if args[i] != params[i].1 {
        Err(spec_wrong_type(params[i].1, args[i]))
    } else {
        spec_check_arg_types_from(params, args, i + 1)
    }
}

pub open spec fn spec_check_arg_types(params: Seq<(String, DataType)>, args: Seq<DataType>) -> Result<(), CompileErrorView> {
    if params.len() != args.len() {
        Err(spec_wrong_number_of_arguments(params.len() as int, args.len() as int))
    } else {
        spec_check_arg_types_from(params, args, 0)
    }
}

/// A signature seen as plain data: parameter names as text.
pub struct SignitureView {
    pub return_type: DataType,
    pub params: Seq<(Seq<char>, DataType)>,
}

impl View for InternalFunctionSigniture {
    type V = SignitureView;

    open spec fn view(&self) -> SignitureView {
        SignitureView {
            return_type: self.return_type,
            params: self.params@.map_values(|p: (String, DataType)| (p.0@, p.1)),
        }
    }
}

impl InternalFunctionSigniture {
    pub fn new(return_type: DataType, params: Vec<(String, DataType)>) -> (s: Self)
        ensures
            s == (InternalFunctionSigniture { return_type, params }),
    {
        Self { return_type, params }
    }

    /// The signature without spans: each parameter's name and type.
    pub fn from_spanned_params(return_type: DataType, params: &Vec<SpannedParameter>) -> (s: Self)
        ensures
            s@ == (SignitureView {
                return_type,
                params: params@.map_values(|p: SpannedParameter| (p.name@, p.data_type)),
            }),
    {
        let mut out: Vec<(String, DataType)> = Vec::new();
        let mut i: usize = 0;
        while i < params.len()
            invariant
                i <= params@.len(),
                out@.len() == i,
                forall|j: int| 0 <= j < i ==> (#[trigger] out@[j]).0@ == params@[j].name@ && out@[j].1 == params@[j].data_type,
            decreases params@.len() - i,
        {
            out.push((params[i].name.clone(), params[i].data_type.duplicate()));
            i = i + 1;
        }
        assert(out@.map_values(|p: (String, DataType)| (p.0@, p.1)) =~= params@.map_values(
            |p: SpannedParameter| (p.name@, p.data_type),
        ));
        Self { return_type, params: out }
    }

    /// Checks the types of a call's arguments; the errors carry no span.
    pub fn check_argument_types(&self, arg_types: &[DataType]) -> (r: Result<(), CompileError>)
        ensures
            view_result(r) == spec_check_arg_types(self.params@, arg_types@),
    {
        if self.params.len() != arg_types.len() {
            return Err(CompileError::wrong_number_of_arguments(self.params.len(), arg_types.len()));
        }
        let mut i: usize = 0;
        while i < self.params.len()
            invariant
                self.params@.len() == arg_types@.len(),
                i <= self.params@.len(),
                spec_check_arg_types_from(self.params@, arg_types@, 0) == spec_check_arg_types_from(self.params@, arg_types@, i as int),
            decreases self.params@.len() - i,
        {
            if !arg_types[i].equals(&self.params[i].1) {
                return Err(CompileError::wrong_type(self.params[i].1.duplicate(), arg_types[i].duplicate()));
            }
            i = i + 1;
        }
        Ok(())
    }
}

/// A named in-language function: its name, return type and parameters.
#[derive(Debug)]
pub struct InternalFunctionDefinition {
    pub name: String,
    pub return_type: DataType,
    pub params: Vec<(String, DataType)>,
}

impl InternalFunctionDefinition {
    pub fn new(name: String, return_type: DataType, params: Vec<(String, DataType)>) -> (d: Self)
        ensures
            d == (InternalFunctionDefinition { name, return_type, params }),
    {
        InternalFunctionDefinition { name, return_type, params }
    }
}

/// The compiled body of an in-language function and how many local slots it uses.
#[derive(Debug)]
pub struct InternalFunctionSource {
    pub slot_count: usize,
    pub body: Vec<Instruction>,
}

/// A compiled function seen as plain data.
pub struct SourceView {
    pub slot_count: usize,
    pub body: Seq<InstructionView>,
}

impl View for InternalFunctionSource {
    type V = SourceView;

    open spec fn view(&self) -> SourceView {
        SourceView { slot_count: self.slot_count, body: self.body@.map_values(|i: Instruction| i@) }
    }
}

impl InternalFunctionSource {
    pub fn new(slot_count: usize, body: Vec<Instruction>) -> (s: Self)
        ensures
            s == (InternalFunctionSource { slot_count, body }),
    {
        Self { slot_count, body }
    }
}

} // verus!
