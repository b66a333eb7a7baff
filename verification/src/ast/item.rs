use vstd::prelude::*;
use crate::function::InternalFunctionSigniture;

verus! {

/// A top-level item of a module: a function definition (its name and
/// signature) or the import of a module by name.
#[derive(Debug)]
pub enum Item {
    FunctionDef(String, InternalFunctionSigniture),
    Import(String),
}

} // verus!
