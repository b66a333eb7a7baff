use vstd::prelude::*;
use crate::ast::Expr;
use crate::compiler::data_type::DataType;

verus! {

/// A statement of the language's first form.
#[derive(Debug)]
pub enum Stmt {
    VarAssign(String, Expr),
    VarDeclare(Option<DataType>, String, Expr),
    /// The condition, the statements, and the `else` statements if any.
    If(Expr, Vec<Stmt>, Option<Vec<Stmt>>),
    While(Expr, Vec<Stmt>),
    Expr(Expr),
    Return(Expr),
}

} // verus!
