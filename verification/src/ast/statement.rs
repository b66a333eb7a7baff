use vstd::prelude::*;
use super::{Expr, ExprView};
use crate::data_type::DataType;
use crate::diagnostics::Span;

verus! {

/// A statement and the source span it was read from.
#[derive(Debug)]
pub struct Statement {
    pub kind: StatementKind,
    pub span: Span,
}

#[derive(Debug)]
pub enum StatementKind {
    /// `T x = e` (with `data_type: Some(T)`) or `let x = e`.
    VarDeclare { data_type: Option<DataType>, variable: String, value: Expr },
    VarAssign { variable: String, value: Expr },
    Expr(Expr),
    If { condition: Expr, if_block: Vec<Statement>, else_block: Option<Vec<Statement>> },
    While { condition: Expr, block: Vec<Statement> },
    Return(Expr),
}

/// A statement as plain data: expressions by their views, blocks as sequences.
pub struct StatementView {
    pub kind: StatementKindView,
    pub span: Span,
}

pub enum StatementKindView {
    VarDeclare { data_type: Option<DataType>, variable: String, value: ExprView },
    VarAssign { variable: String, value: ExprView },
    Expr(ExprView),
    If { condition: ExprView, if_block: Seq<StatementView>, else_block: Option<Seq<StatementView>> },
    While { condition: ExprView, block: Seq<StatementView> },
    Return(ExprView),
}

/// The plain-data form of a statement.
pub open spec fn statement_view(s: Statement) -> StatementView
    decreases s,
{
    StatementView {
        kind: match s.kind {
            StatementKind::VarDeclare { data_type, variable, value } => StatementKindView::VarDeclare {
                data_type,
                variable,
                value: value@,
            },
            StatementKind::VarAssign { variable, value } => StatementKindView::VarAssign { variable, value: value@ },
            StatementKind::Expr(e) => StatementKindView::Expr(e@),
            StatementKind::If { condition, if_block, else_block } => StatementKindView::If {
                condition: condition@,
                if_block: statements_view(if_block@),
                else_block: match else_block {
                    Some(b) => Some(statements_view(b@)),
                    None => None,
                },
            },
            StatementKind::While { condition, block } => StatementKindView::While {
                condition: condition@,
                block: statements_view(block@),
            },
            StatementKind::Return(e) => StatementKindView::Return(e@),
        },
        span: s.span,
    }
}

/// The plain-data forms of a sequence of statements.
pub open spec fn statements_view(ss: Seq<Statement>) -> Seq<StatementView>
    decreases ss,
{
    if ss.len() == 0 {
        Seq::empty()
    } else {
        statements_view(ss.drop_last()).push(statement_view(ss.last()))
    }
}

/// Viewing a prefix of statements is taking a prefix of their views.
pub proof fn lemma_statements_view_take(ss: Seq<Statement>, k: int)
    requires
        0 <= k <= ss.len(),
    ensures
        statements_view(ss).len() == ss.len(),
        statements_view(ss.take(k)) == statements_view(ss).take(k),
    decreases ss.len(),
{
    if ss.len() > 0 {
        lemma_statements_view_take(ss.drop_last(), if k == ss.len() { k - 1 } else { k });
        if k == ss.len() {
            assert(ss.take(k) =~= ss);
            assert(statements_view(ss).take(k) =~= statements_view(ss));
        } else {
            assert(ss.drop_last().take(k) =~= ss.take(k));
            assert(statements_view(ss).take(k) =~= statements_view(ss.drop_last()).take(k));
        }
    } else {
        assert(ss.take(k) =~= ss);
    }
}

impl View for Statement {
    type V = StatementView;

    open spec fn view(&self) -> StatementView {
        statement_view(*self)
    }
}

impl Statement {
    pub fn var_declare(data_type: Option<DataType>, variable: String, value: Expr, span: Span) -> (s: Self)
        ensures
            s == (Statement { kind: StatementKind::VarDeclare { data_type, variable, value }, span }),
    {
        Statement { kind: StatementKind::VarDeclare { data_type, variable, value }, span }
    }

    pub fn var_assign(variable: String, value: Expr, span: Span) -> (s: Self)
        ensures
            s == (Statement { kind: StatementKind::VarAssign { variable, value }, span }),
    {
        Statement { kind: StatementKind::VarAssign { variable, value }, span }
    }

    pub fn expr_statement(expr: Expr, span: Span) -> (s: Self)
        ensures
            s == (Statement { kind: StatementKind::Expr(expr), span }),
    {
        Statement { kind: StatementKind::Expr(expr), span }
    }

    pub fn if_statement(
        condition: Expr,
        if_block: Vec<Statement>,
        else_block: Option<Vec<Statement>>,
        span: Span,
    ) -> (s: Self)
        ensures
            s == (Statement { kind: StatementKind::If { condition, if_block, else_block }, span }),
    {
        Statement { kind: StatementKind::If { condition, if_block, else_block }, span }
    }

    pub fn while_statement(condition: Expr, block: Vec<Statement>, span: Span) -> (s: Self)
        ensures
            s == (Statement { kind: StatementKind::While { condition, block }, span }),
    {
        Statement { kind: StatementKind::While { condition, block }, span }
    }

    pub fn return_statement(expr: Expr, span: Span) -> (s: Self)
        ensures
            s == (Statement { kind: StatementKind::Return(expr), span }),
    {
        Statement { kind: StatementKind::Return(expr), span }
    }
}

} // verus!
