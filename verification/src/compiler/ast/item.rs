use vstd::prelude::*;
use super::Stmt;
use crate::compiler::data_type::DataType;

verus! {

/// A top-level item of the language's first form.
#[derive(Debug)]
pub enum Item {
    FnDef(FunctionDef),
}

/// A function definition: its name, return type, parameters and body.
#[derive(Debug)]
pub struct FunctionDef {
    pub name: String,
    pub return_type: DataType,
    pub args: Vec<(String, DataType)>,
    pub body: Vec<Stmt>,
}

impl FunctionDef {
    pub fn new(name: String, return_type: DataType, args: Vec<(String, DataType)>, body: Vec<Stmt>) -> (f: Self)
        ensures
            f == (FunctionDef { name, return_type, args, body }),
    {
        FunctionDef { name, return_type, args, body }
    }
}

} // verus!
