use vstd::prelude::*;
use super::{BinaryOp, BuiltinFunction, UnaryOp};
use crate::diagnostics::Span;
use crate::value::Value;

verus! {

/// An expression and the source span it was read from.
#[derive(Debug)]
pub struct Expr {
    pub kind: ExprKind,
    pub span: Span,
}

#[derive(Debug)]
pub enum ExprKind {
    Literal(Value),
    Var(String),
    BinaryOp(BinaryOp, Box<Expr>, Box<Expr>),
    UnaryOp(UnaryOp, Box<Expr>),
    FunctionCall { func_name: String, args: Vec<Expr> },
    ForeignFunctionCall { module_name: String, func_name: String, args: Vec<Expr> },
    BuiltinFunctionCall { function: BuiltinFunction, args: Vec<Expr> },
    MethodCall { callee: Box<Expr>, method_name: String, args: Vec<Expr> },
}

/// An expression as plain data: argument lists as sequences.
pub struct ExprView {
    pub kind: ExprKindView,
    pub span: Span,
}

pub enum ExprKindView {
    Literal(Value),
    Var(String),
    BinaryOp(BinaryOp, Box<ExprView>, Box<ExprView>),
    UnaryOp(UnaryOp, Box<ExprView>),
    FunctionCall { func_name: String, args: Seq<ExprView> },
    ForeignFunctionCall { module_name: String, func_name: String, args: Seq<ExprView> },
    BuiltinFunctionCall { function: BuiltinFunction, args: Seq<ExprView> },
    MethodCall { callee: Box<ExprView>, method_name: String, args: Seq<ExprView> },
}

/// The plain-data form of an expression.
pub open spec fn expr_view(e: Expr) -> ExprView
    decreases e,
{
    ExprView {
        kind: match e.kind {
            ExprKind::Literal(v) => ExprKindView::Literal(v),
            ExprKind::Var(n) => ExprKindView::Var(n),
            ExprKind::BinaryOp(op, l, r) => ExprKindView::BinaryOp(op, Box::new(expr_view(*l)), Box::new(expr_view(*r))),
            ExprKind::UnaryOp(op, x) => ExprKindView::UnaryOp(op, Box::new(expr_view(*x))),
            ExprKind::FunctionCall { func_name, args } => ExprKindView::FunctionCall {
                func_name,
                args: exprs_view(args@),
            },
            ExprKind::ForeignFunctionCall { module_name, func_name, args } => ExprKindView::ForeignFunctionCall {
                module_name,
                func_name,
                args: exprs_view(args@),
            },
            ExprKind::BuiltinFunctionCall { function, args } => ExprKindView::BuiltinFunctionCall {
                function,
                args: exprs_view(args@),
            },
            ExprKind::MethodCall { callee, method_name, args } => ExprKindView::MethodCall {
                callee: Box::new(expr_view(*callee)),
                method_name,
                args: exprs_view(args@),
            },
        },
        span: e.span,
    }
}

/// The plain-data forms of a sequence of expressions.
pub open spec fn exprs_view(es: Seq<Expr>) -> Seq<ExprView>
    decreases es,
{
    if es.len() == 0 {
        Seq::empty()
    } else {
        exprs_view(es.drop_last()).push(expr_view(es.last()))
    }
}

/// Viewing a prefix of expressions is taking a prefix of their views.
pub proof fn lemma_exprs_view_take(es: Seq<Expr>, k: int)
    requires
        0 <= k <= es.len(),
    ensures
        exprs_view(es).len() == es.len(),
        exprs_view(es.take(k)) == exprs_view(es).take(k),
    decreases es.len(),
{
    if es.len() > 0 {
        lemma_exprs_view_take(es.drop_last(), if k == es.len() { k - 1 } else { k });
        if k == es.len() {
            assert(es.take(k) =~= es);
            assert(exprs_view(es).take(k) =~= exprs_view(es));
        } else {
            assert(es.drop_last().take(k) =~= es.take(k));
            assert(exprs_view(es).take(k) =~= exprs_view(es.drop_last()).take(k));
        }
    } else {
        assert(es.take(k) =~= es);
    }
}

impl View for Expr {
    type V = ExprView;

    open spec fn view(&self) -> ExprView {
        expr_view(*self)
    }
}

impl Expr {
    pub fn new(kind: ExprKind, span: Span) -> (e: Self)
        ensures
            e == (Expr { kind, span }),
    {
        Self { kind, span }
    }

    pub fn literal(value: Value, span: Span) -> (e: Self)
        ensures
            e == (Expr { kind: ExprKind::Literal(value), span }),
    {
        Self { kind: ExprKind::Literal(value), span }
    }

    pub fn var(name: String, span: Span) -> (e: Self)
        ensures
            e == (Expr { kind: ExprKind::Var(name), span }),
    {
        Self { kind: ExprKind::Var(name), span }
    }

    pub fn binary_op(op: BinaryOp, lhs: Self, rhs: Self, span: Span) -> (e: Self)
        ensures
            e == (Expr { kind: ExprKind::BinaryOp(op, Box::new(lhs), Box::new(rhs)), span }),
    {
        Self { kind: ExprKind::new_binary_op(op, lhs, rhs), span }
    }

    pub fn unary_op(op: UnaryOp, expr: Self, span: Span) -> (e: Self)
        ensures
            e == (Expr { kind: ExprKind::UnaryOp(op, Box::new(expr)), span }),
    {
        Self { kind: ExprKind::new_unary_op(op, expr), span }
    }

    pub fn function_call(func_name: String, args: Vec<Self>, span: Span) -> (e: Self)
        ensures
            e == (Expr { kind: ExprKind::FunctionCall { func_name, args }, span }),
    {
        Self { kind: ExprKind::FunctionCall { func_name, args }, span }
    }

    pub fn foreign_function_call(module_name: String, func_name: String, args: Vec<Self>, span: Span) -> (e: Self)
        ensures
            e == (Expr { kind: ExprKind::ForeignFunctionCall { module_name, func_name, args }, span }),
    {
        Self { kind: ExprKind::ForeignFunctionCall { module_name, func_name, args }, span }
    }

    pub fn builtin_function_call(function: BuiltinFunction, args: Vec<Self>, span: Span) -> (e: Self)
        ensures
            e == (Expr { kind: ExprKind::BuiltinFunctionCall { function, args }, span }),
    {
        Self { kind: ExprKind::BuiltinFunctionCall { function, args }, span }
    }

    pub fn method_call(callee: Self, method_name: String, args: Vec<Self>, span: Span) -> (e: Self)
        ensures
            e == (Expr {
                kind: ExprKind::MethodCall { callee: Box::new(callee), method_name, args },
                span,
            }),
    {
        Self { kind: ExprKind::MethodCall { callee: Box::new(callee), method_name, args }, span }
    }
}

impl ExprKind {
    pub fn new_binary_op(op: BinaryOp, lhs: Expr, rhs: Expr) -> (k: Self)
        ensures
            k == ExprKind::BinaryOp(op, Box::new(lhs), Box::new(rhs)),
    {
        Self::BinaryOp(op, Box::new(lhs), Box::new(rhs))
    }

    pub fn new_unary_op(op: UnaryOp, expr: Expr) -> (k: Self)
        ensures
            k == ExprKind::UnaryOp(op, Box::new(expr)),
    {
        Self::UnaryOp(op, Box::new(expr))
    }
}

} // verus!
