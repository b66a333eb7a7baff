use vstd::prelude::*;

verus! {

/// The unary operators of the language: arithmetic negation and logical not.
#[derive(Debug, Clone, Copy, PartialEq, Eq, Structural)]
pub enum UnaryOp {
    Negate,
    Not,
}

} // verus!
