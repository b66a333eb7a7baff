//! The parser: tokens to an abstract syntax tree, by recursive descent.
//!
//! Each parsing function is stated by a spec function of the same shape
//! over the token sequence: from a start index it gives the result and the
//! index the parser stands at afterwards (on failure too).
use vstd::prelude::*;
use super::token::{Token, TokenKind};
use super::compiler::slots_below;
use crate::ast::{
    Ast, AstView, SigView, sig_view, BinaryOp, BuiltinFunction, Expr, ExprKindView, ExprView, Path, SpannedFunctionSigniture,
    SpannedParameter, Statement, StatementKindView, StatementView, UnaryOp, spec_builtin_named,
    statements_view,
};
use crate::data_type::DataType;
use crate::diagnostics::{FileId, Span};
use crate::errors::{
    CompileError, CompileErrorView, spec_reserved_function_name_at, spec_unexpected_end_of_file_at,
    spec_unexpected_token_at,
};
use crate::name_map::insert_entry;
use crate::value::Value;

verus! {

/// What a parsing step gives: its result and the index after it.
pub type Parsed<T> = (Result<T, CompileErrorView>, int);

/// Every token lies in the same file as the first.
pub open spec fn same_file(ts: Seq<Token>) -> bool {
    forall|k: int| 0 <= k < ts.len() ==> #[trigger] ts[k].span.file == ts[0].span.file
}

/// The file of the tokens.
pub open spec fn tokens_file(ts: Seq<Token>) -> FileId {
    if ts.len() > 0 { ts[0].span.file } else { 0 }
}

/// Where the input ends: the last token's span, or an empty span in file 0.
pub open spec fn eof_span(ts: Seq<Token>) -> Span {
    if ts.len() > 0 { ts.last().span } else { Span { file: 0, lo: 0, hi: 0 } }
}

pub open spec fn eof_error(ts: Seq<Token>) -> CompileErrorView {
    spec_unexpected_end_of_file_at(eof_span(ts))
}

/// The error for the token at `i`.
pub open spec fn token_error(ts: Seq<Token>, i: int) -> CompileErrorView {
    spec_unexpected_token_at(ts[i].kind, ts[i].span)
}

/// The error at the end of input inside an expression.
pub open spec fn expr_eof_error(file: FileId) -> CompileErrorView {
    spec_unexpected_end_of_file_at(Span { file, lo: 0, hi: 0 })
}

/// The token kinds without data that the parser asks for by name.
pub open spec fn simple_kind(k: TokenKind) -> bool {
    ||| k is EOL
    ||| k is Assign
    ||| k is Comma
    ||| k is Colon
    ||| k is ParenL
    ||| k is ParenR
    ||| k is BraceL
    ||| k is BraceR
    ||| k is If
    ||| k is Else
    ||| k is Let
    ||| k is While
    ||| k is Return
    ||| k is Import
}

/// Whether the token at `i` exists and is of kind `k`.
pub open spec fn at_kind(ts: Seq<Token>, i: int, k: TokenKind) -> bool {
    0 <= i < ts.len() && ts[i].kind == k
}

/// Takes the token at `i`, which must be of kind `k`; gives its span.
pub open spec fn expect(ts: Seq<Token>, i: int, k: TokenKind) -> Parsed<Span> {
    if i < 0 || i >= ts.len() {
        (Err(eof_error(ts)), i)
    } else if ts[i].kind == k {
        (Ok(ts[i].span), i + 1)
    } else {
        (Err(token_error(ts, i)), i + 1)
    }
}

/// Takes the identifier at `i`: its name and span.
pub open spec fn expect_ident(ts: Seq<Token>, i: int) -> Parsed<(String, Span)> {
    if i < 0 || i >= ts.len() {
        (Err(eof_error(ts)), i)
    } else {
        match ts[i].kind {
            TokenKind::Ident(name) => (Ok((name, ts[i].span)), i + 1),
            _ => (Err(token_error(ts, i)), i + 1),
        }
    }
}

/// Takes the type name at `i`: the type and its span.
pub open spec fn expect_data_type(ts: Seq<Token>, i: int) -> Parsed<(DataType, Span)> {
    if i < 0 || i >= ts.len() {
        (Err(eof_error(ts)), i)
    } else {
        match ts[i].kind {
            TokenKind::DataType(t) => (Ok((t, ts[i].span)), i + 1),
            _ => (Err(token_error(ts, i)), i + 1),
        }
    }
}

pub open spec fn logical_op(k: TokenKind) -> Option<BinaryOp> {
    match k {
        TokenKind::And => Some(BinaryOp::And),
        TokenKind::Or => Some(BinaryOp::Or),
        _ => None,
    }
}

pub open spec fn comp_op(k: TokenKind) -> Option<BinaryOp> {
    match k {
        TokenKind::Equal => Some(BinaryOp::Equal),
        TokenKind::NotEqual => Some(BinaryOp::NotEqual),
        TokenKind::Less => Some(BinaryOp::Less),
        TokenKind::LessEqual => Some(BinaryOp::LessEqual),
        TokenKind::Greater => Some(BinaryOp::Greater),
        TokenKind::GreaterEqual => Some(BinaryOp::GreaterEqual),
        _ => None,
    }
}

pub open spec fn add_op(k: TokenKind) -> Option<BinaryOp> {
    match k {
        TokenKind::Plus => Some(BinaryOp::Add),
        TokenKind::Minus => Some(BinaryOp::Sub),
        _ => None,
    }
}

pub open spec fn mul_op(k: TokenKind) -> Option<BinaryOp> {
    match k {
        TokenKind::Asterisk => Some(BinaryOp::Mul),
        TokenKind::Slash => Some(BinaryOp::Div),
        TokenKind::Modulo => Some(BinaryOp::Modulo),
        _ => None,
    }
}

/// The binary operator a token stands for, at whatever level it binds.
pub open spec fn binary_op_token(k: TokenKind) -> Option<BinaryOp> {
    if logical_op(k) is Some {
        logical_op(k)
    } else if comp_op(k) is Some {
        comp_op(k)
    } else if add_op(k) is Some {
        add_op(k)
    } else {
        mul_op(k)
    }
}

pub open spec fn unary_op(k: TokenKind) -> Option<UnaryOp> {
    match k {
        TokenKind::Not => Some(UnaryOp::Not),
        TokenKind::Minus => Some(UnaryOp::Negate),
        _ => None,
    }
}

/// The expression `lhs op rhs`, spanning both.
pub open spec fn binary_view(op: BinaryOp, lhs: ExprView, rhs: ExprView) -> ExprView {
    ExprView { kind: ExprKindView::BinaryOp(op, Box::new(lhs), Box::new(rhs)), span: lhs.span.spec_join(rhs.span) }
}

/// The literal a token stands for, if it is a literal.
pub open spec fn literal_of(k: TokenKind) -> Option<Value> {
    match k {
        TokenKind::Bool(b) => Some(Value::Bool(b)),
        TokenKind::Int(n) => Some(Value::Int(n)),
        TokenKind::Float(bits) => Some(Value::Float(bits)),
        TokenKind::StringLiteral(s) => Some(Value::String(s)),
        _ => None,
    }
}

/// An expression: logical operators bind loosest, then comparisons, then
/// `+ -`, then `* / %`, then the prefix operators.
pub open spec fn p_expr(ts: Seq<Token>, file: FileId, i: int) -> Parsed<ExprView>
    decreases ts.len() - i, 20nat,
{
    p_logical(ts, file, i)
}

/// `a && b || c ...`, grouped to the left.
pub open spec fn p_logical(ts: Seq<Token>, file: FileId, i: int) -> Parsed<ExprView>
    decreases ts.len() - i, 19nat,
{
    match p_comp(ts, file, i) {
        (Ok(lhs), j) => if j <= i || j > ts.len() {
            (Err(eof_error(ts)), j)
        } else {
            p_logical_rest(ts, file, lhs, j)
        },
        (Err(e), j) => (Err(e), j),
    }
}

pub open spec fn p_logical_rest(ts: Seq<Token>, file: FileId, lhs: ExprView, i: int) -> Parsed<ExprView>
    decreases ts.len() - i, 19nat,
{
    if i < 0 || i >= ts.len() {
        (Ok(lhs), i)
    } else {
        match logical_op(ts[i].kind) {
            None => (Ok(lhs), i),
            Some(op) => match p_comp(ts, file, i + 1) {
                (Ok(rhs), j) => if j <= i || j > ts.len() {
                    (Err(eof_error(ts)), j)
                } else {
                    p_logical_rest(ts, file, binary_view(op, lhs, rhs), j)
                },
                (Err(e), j) => (Err(e), j),
            },
        }
    }
}

/// At most one comparison: `a == b`, `a < b`, ...
pub open spec fn p_comp(ts: Seq<Token>, file: FileId, i: int) -> Parsed<ExprView>
    decreases ts.len() - i, 18nat,
{
    match p_add(ts, file, i) {
        (Ok(lhs), j) => if j < i || j >= ts.len() {
            (Ok(lhs), j)
        } else {
            match comp_op(ts[j].kind) {
                None => (Ok(lhs), j),
                Some(op) => match p_add(ts, file, j + 1) {
                    (Ok(rhs), k) => (Ok(binary_view(op, lhs, rhs)), k),
                    (Err(e), k) => (Err(e), k),
                },
            }
        },
        (Err(e), j) => (Err(e), j),
    }
}

/// `a + b - c ...`, grouped to the left.
pub open spec fn p_add(ts: Seq<Token>, file: FileId, i: int) -> Parsed<ExprView>
    decreases ts.len() - i, 17nat,
{
    match p_mul(ts, file, i) {
        (Ok(lhs), j) => if j <= i || j > ts.len() {
            (Err(eof_error(ts)), j)
        } else {
            p_add_rest(ts, file, lhs, j)
        },
        (Err(e), j) => (Err(e), j),
    }
}

pub open spec fn p_add_rest(ts: Seq<Token>, file: FileId, lhs: ExprView, i: int) -> Parsed<ExprView>
    decreases ts.len() - i, 17nat,
{
    if i < 0 || i >= ts.len() {
        (Ok(lhs), i)
    } else {
        match add_op(ts[i].kind) {
            None => (Ok(lhs), i),
            Some(op) => match p_mul(ts, file, i + 1) {
                (Ok(rhs), j) => if j <= i || j > ts.len() {
                    (Err(eof_error(ts)), j)
                } else {
                    p_add_rest(ts, file, binary_view(op, lhs, rhs), j)
                },
                (Err(e), j) => (Err(e), j),
            },
        }
    }
}

/// `a * b / c % d ...`, grouped to the left.
pub open spec fn p_mul(ts: Seq<Token>, file: FileId, i: int) -> Parsed<ExprView>
    decreases ts.len() - i, 16nat,
{
    match p_unary(ts, file, i) {
        (Ok(lhs), j) => if j <= i || j > ts.len() {
            (Err(eof_error(ts)), j)
        } else {
            p_mul_rest(ts, file, lhs, j)
        },
        (Err(e), j) => (Err(e), j),
    }
}

pub open spec fn p_mul_rest(ts: Seq<Token>, file: FileId, lhs: ExprView, i: int) -> Parsed<ExprView>
    decreases ts.len() - i, 16nat,
{
    if i < 0 || i >= ts.len() {
        (Ok(lhs), i)
    } else {
        match mul_op(ts[i].kind) {
            None => (Ok(lhs), i),
            Some(op) => match p_unary(ts, file, i + 1) {
                (Ok(rhs), j) => if j <= i || j > ts.len() {
                    (Err(eof_error(ts)), j)
                } else {
                    p_mul_rest(ts, file, binary_view(op, lhs, rhs), j)
                },
                (Err(e), j) => (Err(e), j),
            },
        }
    }
}

/// `!e` or `-e`, or an atom.
pub open spec fn p_unary(ts: Seq<Token>, file: FileId, i: int) -> Parsed<ExprView>
    decreases ts.len() - i, 15nat,
{
    if i < 0 || i >= ts.len() {
        (Err(expr_eof_error(file)), i)
    } else {
        match unary_op(ts[i].kind) {
            None => p_atom(ts, file, i),
            Some(op) => match p_unary(ts, file, i + 1) {
                (Ok(e), j) => (
                    Ok(ExprView { kind: ExprKindView::UnaryOp(op, Box::new(e)), span: ts[i].span.spec_join(e.span) }),
                    j,
                ),
                (Err(e), j) => (Err(e), j),
            },
        }
    }
}

/// A literal, a name (with what follows it), or an expression in parentheses.
pub open spec fn p_atom(ts: Seq<Token>, file: FileId, i: int) -> Parsed<ExprView>
    decreases ts.len() - i, 14nat,
{
    if i < 0 || i >= ts.len() {
        (Err(expr_eof_error(file)), i)
    } else if let Some(v) = literal_of(ts[i].kind) {
        (Ok(ExprView { kind: ExprKindView::Literal(v), span: ts[i].span }), i + 1)
    } else if ts[i].kind is Ident {
        p_ident_expr(ts, file, i)
    } else if ts[i].kind is ParenL {
        let (inner, j) = p_expr(ts, file, i + 1);
        match expect(ts, j, TokenKind::ParenR) {
            (Ok(_), k) => (inner, k),
            (Err(e), k) => (Err(e), k),
        }
    } else {
        (Err(token_error(ts, i)), i + 1)
    }
}

/// A name: a call `f(..)` (of a built-in function where the name is one), a
/// call into another module `m:f(..)`, or a variable.
pub open spec fn p_ident_expr(ts: Seq<Token>, file: FileId, i: int) -> Parsed<ExprView>
    decreases ts.len() - i, 13nat,
{
    match expect_ident(ts, i) {
        (Err(e), j) => (Err(e), j),
        (Ok((name, name_span)), j) => if at_kind(ts, j, TokenKind::ParenL) {
            match p_args(ts, file, j + 1, Seq::empty()) {
                (Err(e), k) => (Err(e), k),
                (Ok(args), k) => match expect(ts, k, TokenKind::ParenR) {
                    (Err(e), m) => (Err(e), m),
                    (Ok(end), m) => (
                        Ok(ExprView {
                            kind: match spec_builtin_named(name@) {
                                Some(f) => ExprKindView::BuiltinFunctionCall { function: f, args },
                                None => ExprKindView::FunctionCall { func_name: name, args },
                            },
                            span: name_span.spec_join(end),
                        }),
                        m,
                    ),
                },
            }
        } else if at_kind(ts, j, TokenKind::Colon) {
            match expect_ident(ts, j + 1) {
                (Err(e), k) => (Err(e), k),
                (Ok((func_name, _)), k) => match expect(ts, k, TokenKind::ParenL) {
                    (Err(e), m) => (Err(e), m),
                    (Ok(_), m) => match p_args(ts, file, m, Seq::empty()) {
                        (Err(e), n) => (Err(e), n),
                        (Ok(args), n) => match expect(ts, n, TokenKind::ParenR) {
                            (Err(e), q) => (Err(e), q),
                            (Ok(end), q) => (
                                Ok(ExprView {
                                    kind: ExprKindView::ForeignFunctionCall { module_name: name, func_name, args },
                                    span: name_span.spec_join(end),
                                }),
                                q,
                            ),
                        },
                    },
                },
            }
        } else {
            (Ok(ExprView { kind: ExprKindView::Var(name), span: name_span }), j)
        },
    }
}

/// Arguments separated by commas, after those in `acc`, up to a `)` that is
/// not taken.
pub open spec fn p_args(ts: Seq<Token>, file: FileId, i: int, acc: Seq<ExprView>) -> Parsed<Seq<ExprView>>
    decreases ts.len() - i, 21nat,
{
    if i < 0 || i >= ts.len() || ts[i].kind is ParenR {
        (Ok(acc), i)
    } else {
        match p_expr(ts, file, i) {
            (Err(e), j) => (Err(e), j),
            (Ok(e), j) => if at_kind(ts, j, TokenKind::Comma) {
                if j < i {
                    (Err(eof_error(ts)), j)
                } else {
                    p_args(ts, file, j + 1, acc.push(e))
                }
            } else {
                (Ok(acc.push(e)), j)
            },
        }
    }
}



/// A statement list, after the statements in `acc`: statements up to a token
/// of kind `crit` (not taken) or the end of input; lone end-of-line tokens
/// are skipped.
pub open spec fn p_statements(ts: Seq<Token>, file: FileId, i: int, crit: TokenKind, acc: Seq<StatementView>) -> Parsed<Seq<StatementView>>
    decreases ts.len() - i, 30nat,
{
    if i < 0 || i >= ts.len() || ts[i].kind == crit {
        (Ok(acc), i)
    } else if ts[i].kind is EOL {
        p_statements(ts, file, i + 1, crit, acc)
    } else {
        match p_statement(ts, file, i) {
            (Err(e), j) => (Err(e), j),
            (Ok(s), j) => if j <= i || j > ts.len() {
                (Err(eof_error(ts)), j)
            } else {
                p_statements(ts, file, j, crit, acc.push(s))
            },
        }
    }
}

/// The statement `s` ended by an end-of-line token at `j`.
pub open spec fn end_of_line(ts: Seq<Token>, s: StatementView, j: int) -> Parsed<StatementView> {
    match expect(ts, j, TokenKind::EOL) {
        (Ok(_), k) => (Ok(s), k),
        (Err(e), k) => (Err(e), k),
    }
}

/// One statement, at a token that is neither an end of line nor the end of the list.
pub open spec fn p_statement(ts: Seq<Token>, file: FileId, i: int) -> Parsed<StatementView>
    decreases ts.len() - i, 29nat,
{
    if i < 0 || i >= ts.len() {
        (Err(eof_error(ts)), i)
    } else {
        let span = ts[i].span;
        match ts[i].kind {
            TokenKind::Return => if at_kind(ts, i + 1, TokenKind::EOL) {
                (
                    Ok(StatementView {
                        kind: StatementKindView::Return(ExprView { kind: ExprKindView::Literal(Value::Void), span }),
                        span,
                    }),
                    i + 2,
                )
            } else {
                match p_expr(ts, file, i + 1) {
                    (Err(e), j) => (Err(e), j),
                    (Ok(e), j) => end_of_line(ts, StatementView { kind: StatementKindView::Return(e), span }, j),
                }
            },
            TokenKind::DataType(t) => p_declare(ts, file, i, Some(t)),
            TokenKind::Let => p_declare(ts, file, i, None),
            TokenKind::Ident(_) => p_ident_statement(ts, file, i),
            TokenKind::If => p_if(ts, file, i),
            TokenKind::While => match p_expr(ts, file, i + 1) {
                (Err(e), j) => (Err(e), j),
                (Ok(cond), j) => match expect(ts, j, TokenKind::BraceL) {
                    (Err(e), k) => (Err(e), k),
                    (Ok(_), k) => if k <= i || k > ts.len() {
                        (Err(eof_error(ts)), k)
                    } else {
                        match p_statements(ts, file, k, TokenKind::BraceR, Seq::empty()) {
                            (Err(e), m) => (Err(e), m),
                            (Ok(block), m) => match expect(ts, m, TokenKind::BraceR) {
                                (Err(e), q) => (Err(e), q),
                                (Ok(end), q) => (
                                    Ok(StatementView { kind: StatementKindView::While { condition: cond, block }, span: span.spec_join(end) }),
                                    q,
                                ),
                            },
                        }
                    },
                },
            },
            _ => match p_expr(ts, file, i) {
                (Err(e), j) => (Err(e), j),
                (Ok(e), j) => end_of_line(ts, StatementView { kind: StatementKindView::Expr(e), span: e.span }, j),
            },
        }
    }
}

/// `T x = e` (with `dt` the type `T`) or `let x = e`, at the type or `let`.
pub open spec fn p_declare(ts: Seq<Token>, file: FileId, i: int, dt: Option<DataType>) -> Parsed<StatementView>
    decreases ts.len() - i, 28nat,
{
    match expect_ident(ts, i + 1) {
        (Err(e), j) => (Err(e), j),
        (Ok((name, _)), j) => match expect(ts, j, TokenKind::Assign) {
            (Err(e), k) => (Err(e), k),
            (Ok(_), k) => match p_expr(ts, file, k) {
                (Err(e), m) => (Err(e), m),
                (Ok(e), m) => end_of_line(
                    ts,
                    StatementView {
                        kind: StatementKindView::VarDeclare { data_type: dt, variable: name, value: e },
                        span: ts[i].span.spec_join(e.span),
                    },
                    m,
                ),
            },
        },
    }
}

/// `x = e`, or an expression statement that starts with a name.
pub open spec fn p_ident_statement(ts: Seq<Token>, file: FileId, i: int) -> Parsed<StatementView>
    decreases ts.len() - i, 28nat,
{
    match expect_ident(ts, i) {
        (Err(e), j) => (Err(e), j),
        (Ok((name, _)), j) => if at_kind(ts, j, TokenKind::Assign) {
            match p_expr(ts, file, j + 1) {
                (Err(e), k) => (Err(e), k),
                (Ok(e), k) => end_of_line(
                    ts,
                    StatementView {
                        kind: StatementKindView::VarAssign { variable: name, value: e },
                        span: ts[j].span.spec_join(e.span),
                    },
                    k,
                ),
            }
        } else {
            match p_expr(ts, file, i) {
                (Err(e), k) => (Err(e), k),
                (Ok(e), k) => end_of_line(ts, StatementView { kind: StatementKindView::Expr(e), span: e.span }, k),
            }
        },
    }
}

/// `if c { .. }`, with an optional `else { .. }` or `else if ..`.
pub open spec fn p_if(ts: Seq<Token>, file: FileId, i: int) -> Parsed<StatementView>
    decreases ts.len() - i, 28nat,
{
    match expect(ts, i, TokenKind::If) {
        (Err(e), j) => (Err(e), j),
        (Ok(if_span), j) => match p_expr(ts, file, j) {
            (Err(e), k) => (Err(e), k),
            (Ok(cond), k) => match expect(ts, k, TokenKind::BraceL) {
                (Err(e), m) => (Err(e), m),
                (Ok(_), m) => if m <= i || m > ts.len() {
                    (Err(eof_error(ts)), m)
                } else {
                    match p_statements(ts, file, m, TokenKind::BraceR, Seq::empty()) {
                        (Err(e), n) => (Err(e), n),
                        (Ok(block), n) => match expect(ts, n, TokenKind::BraceR) {
                            (Err(e), q) => (Err(e), q),
                            (Ok(brace_r_span), q) => if !at_kind(ts, q, TokenKind::Else) {
                                (
                                    Ok(StatementView {
                                        kind: StatementKindView::If { condition: cond, if_block: block, else_block: None },
                                        span: if_span.spec_join(brace_r_span),
                                    }),
                                    q,
                                )
                            } else if q + 1 <= i || q + 1 > ts.len() {
                                (Err(eof_error(ts)), q + 1)
                            } else if at_kind(ts, q + 1, TokenKind::If) {
                                match p_if(ts, file, q + 1) {
                                    (Err(e), z) => (Err(e), z),
                                    (Ok(s), z) => (
                                        Ok(StatementView {
                                            kind: StatementKindView::If { condition: cond, if_block: block, else_block: Some(seq![s]) },
                                            span: if_span.spec_join(s.span),
                                        }),
                                        z,
                                    ),
                                }
                            } else {
                                match expect(ts, q + 1, TokenKind::BraceL) {
                                    (Err(e), z) => (Err(e), z),
                                    (Ok(_), z) => if z <= i || z > ts.len() {
                                        (Err(eof_error(ts)), z)
                                    } else {
                                        match p_statements(ts, file, z, TokenKind::BraceR, Seq::empty()) {
                                            (Err(e), w) => (Err(e), w),
                                            (Ok(else_block), w) => match expect(ts, w, TokenKind::BraceR) {
                                                (Err(e), y) => (Err(e), y),
                                                (Ok(end), y) => (
                                                    Ok(StatementView {
                                                        kind: StatementKindView::If {
                                                            condition: cond,
                                                            if_block: block,
                                                            else_block: Some(else_block),
                                                        },
                                                        span: if_span.spec_join(end),
                                                    }),
                                                    y,
                                                ),
                                            },
                                        }
                                    },
                                }
                            },
                        },
                    }
                },
            },
        },
    }
}

/// A top-level item as plain data.
pub enum ItemView {
    Function { name: String, signiture: SigView, body: Seq<StatementView> },
    Import(String),
}

/// Parameters `T x` separated by commas, after those in `acc`, up to a `)` that is not taken.
pub open spec fn p_params(ts: Seq<Token>, i: int, acc: Seq<SpannedParameter>) -> Parsed<Seq<SpannedParameter>>
    decreases ts.len() - i,
{
    if i < 0 || i >= ts.len() || ts[i].kind is ParenR {
        (Ok(acc), i)
    } else {
        match expect_data_type(ts, i) {
            (Err(e), j) => (Err(e), j),
            (Ok((t, t_span)), j) => match expect_ident(ts, j) {
                (Err(e), k) => (Err(e), k),
                (Ok((name, name_span)), k) => {
                    let acc2 = acc.push(SpannedParameter { name, data_type: t, span: t_span.spec_join(name_span) });
                    if at_kind(ts, k, TokenKind::Comma) {
                        p_params(ts, k + 1, acc2)
                    } else {
                        (Ok(acc2), k)
                    }
                },
            },
        }
    }
}

/// A function definition `T name(params) { body }`. The name of a built-in
/// function is refused.
pub open spec fn p_function(ts: Seq<Token>, file: FileId, i: int) -> Parsed<ItemView> {
    match expect_data_type(ts, i) {
        (Err(e), j) => (Err(e), j),
        (Ok((return_type, rt_span)), j) => match expect_ident(ts, j) {
            (Err(e), k) => (Err(e), k),
            (Ok((name, name_span)), k) => match expect(ts, k, TokenKind::ParenL) {
                (Err(e), m) => (Err(e), m),
                (Ok(_), m) => match p_params(ts, m, Seq::empty()) {
                    (Err(e), n) => (Err(e), n),
                    (Ok(params), n) => match expect(ts, n, TokenKind::ParenR) {
                        (Err(e), q) => (Err(e), q),
                        (Ok(paren_span), q) => match expect(ts, q, TokenKind::BraceL) {
                            (Err(e), z) => (Err(e), z),
                            (Ok(_), z) => if spec_builtin_named(name@) is Some {
                                (Err(spec_reserved_function_name_at(name, name_span)), z)
                            } else {
                                match p_statements(ts, file, z, TokenKind::BraceR, Seq::empty()) {
                                    (Err(e), w) => (Err(e), w),
                                    (Ok(body), w) => match expect(ts, w, TokenKind::BraceR) {
                                        (Err(e), y) => (Err(e), y),
                                        (Ok(_), y) => (
                                            Ok(ItemView::Function {
                                                name,
                                                signiture: SigView { return_type, params, span: rt_span.spec_join(paren_span) },
                                                body,
                                            }),
                                            y,
                                        ),
                                    },
                                }
                            },
                        },
                    },
                },
            },
        },
    }
}

/// `import name` and an end of line.
pub open spec fn p_import(ts: Seq<Token>, i: int) -> Parsed<ItemView> {
    match expect(ts, i, TokenKind::Import) {
        (Err(e), j) => (Err(e), j),
        (Ok(_), j) => match expect_ident(ts, j) {
            (Err(e), k) => (Err(e), k),
            (Ok((name, _)), k) => match expect(ts, k, TokenKind::EOL) {
                (Err(e), m) => (Err(e), m),
                (Ok(_), m) => (Ok(ItemView::Import(name)), m),
            },
        },
    }
}

/// The items from `i` to the end: function definitions and imports, with
/// lone end-of-line tokens skipped; any other token is an error.
pub open spec fn p_top(ts: Seq<Token>, file: FileId, i: int) -> Parsed<Seq<ItemView>>
    decreases ts.len() - i,
{
    if i < 0 || i >= ts.len() {
        (Ok(Seq::empty()), i)
    } else if ts[i].kind is EOL {
        p_top(ts, file, i + 1)
    } else if ts[i].kind is DataType || ts[i].kind is Import {
        let item = if ts[i].kind is DataType { p_function(ts, file, i) } else { p_import(ts, i) };
        match item {
            (Err(e), j) => (Err(e), j),
            (Ok(it), j) => if j <= i || j > ts.len() {
                (Err(eof_error(ts)), j)
            } else {
                match p_top(ts, file, j) {
                    (Err(e), k) => (Err(e), k),
                    (Ok(rest), k) => (Ok(seq![it] + rest), k),
                }
            },
        }
    } else {
        (Err(token_error(ts, i)), i + 1)
    }
}

/// The expression that a literal token stands for.
pub open spec fn literal_expr(t: Token) -> ExprView {
    ExprView { kind: ExprKindView::Literal(literal_of(t.kind).unwrap()), span: t.span }
}

/// Whether the input ends at `i` or the token there is no binary operator.
pub open spec fn no_operator_at(ts: Seq<Token>, i: int) -> bool {
    i >= ts.len() || {
        &&& logical_op(ts[i].kind) is None
        &&& comp_op(ts[i].kind) is None
        &&& add_op(ts[i].kind) is None
        &&& mul_op(ts[i].kind) is None
    }
}

/// Whether the tokens from `i` are three literals with two operators between
/// them, `a op b op c`, followed by no further operator.
pub open spec fn three_literals_at(ts: Seq<Token>, i: int) -> bool {
    &&& 0 <= i
    &&& i + 5 <= ts.len()
    &&& literal_of(ts[i].kind) is Some
    &&& literal_of(ts[i + 2].kind) is Some
    &&& literal_of(ts[i + 4].kind) is Some
    &&& no_operator_at(ts, i + 5)
}

/// A literal at `i` is parsed as a prefix-free operand, ending at `i + 1`.
proof fn lemma_literal_operand(ts: Seq<Token>, file: FileId, i: int)
    requires
        0 <= i < ts.len(),
        literal_of(ts[i].kind) is Some,
    ensures
        p_unary(ts, file, i) == (Ok::<ExprView, CompileErrorView>(literal_expr(ts[i])), i + 1),
{
    assert(p_atom(ts, file, i) == (Ok::<ExprView, CompileErrorView>(literal_expr(ts[i])), i + 1));
}

/// Multiplicative operators group to the left: when `a`, `b` and `c` are
/// parsed as operands one after another, with `*`, `/` or `%` between them
/// and no such operator after `c`, `a op1 b op2 c` is `(a op1 b) op2 c`.
pub proof fn lemma_mul_groups_left(
    ts: Seq<Token>,
    file: FileId,
    i: int,
    j1: int,
    j2: int,
    j3: int,
    a: ExprView,
    b: ExprView,
    c: ExprView,
)
    requires
        i < j1 < j2 < j3 <= ts.len(),
        p_unary(ts, file, i) == (Ok::<ExprView, CompileErrorView>(a), j1),
        mul_op(ts[j1].kind) is Some,
        p_unary(ts, file, j1 + 1) == (Ok::<ExprView, CompileErrorView>(b), j2),
        mul_op(ts[j2].kind) is Some,
        p_unary(ts, file, j2 + 1) == (Ok::<ExprView, CompileErrorView>(c), j3),
        j3 == ts.len() || mul_op(ts[j3].kind) is None,
    ensures
        p_mul(ts, file, i) == (Ok::<ExprView, CompileErrorView>(binary_view(
            mul_op(ts[j2].kind).unwrap(),
            binary_view(mul_op(ts[j1].kind).unwrap(), a, b),
            c,
        )), j3),
{
    let ab = binary_view(mul_op(ts[j1].kind).unwrap(), a, b);
    let abc = binary_view(mul_op(ts[j2].kind).unwrap(), ab, c);
    assert(p_mul_rest(ts, file, abc, j3) == (Ok::<ExprView, CompileErrorView>(abc), j3));
    assert(p_mul_rest(ts, file, ab, j2) == (Ok::<ExprView, CompileErrorView>(abc), j3));
    assert(p_mul_rest(ts, file, a, j1) == (Ok::<ExprView, CompileErrorView>(abc), j3));
}

/// The same for `+` and `-`: when `a`, `b` and `c` are parsed as products one
/// after another, with `+` or `-` between them and no such operator after
/// `c`, `a op1 b op2 c` is `(a op1 b) op2 c`.
pub proof fn lemma_add_groups_left(
    ts: Seq<Token>,
    file: FileId,
    i: int,
    j1: int,
    j2: int,
    j3: int,
    a: ExprView,
    b: ExprView,
    c: ExprView,
)
    requires
        i < j1 < j2 < j3 <= ts.len(),
        p_mul(ts, file, i) == (Ok::<ExprView, CompileErrorView>(a), j1),
        add_op(ts[j1].kind) is Some,
        p_mul(ts, file, j1 + 1) == (Ok::<ExprView, CompileErrorView>(b), j2),
        add_op(ts[j2].kind) is Some,
        p_mul(ts, file, j2 + 1) == (Ok::<ExprView, CompileErrorView>(c), j3),
        j3 == ts.len() || add_op(ts[j3].kind) is None,
    ensures
        p_add(ts, file, i) == (Ok::<ExprView, CompileErrorView>(binary_view(
            add_op(ts[j2].kind).unwrap(),
            binary_view(add_op(ts[j1].kind).unwrap(), a, b),
            c,
        )), j3),
{
    let ab = binary_view(add_op(ts[j1].kind).unwrap(), a, b);
    let abc = binary_view(add_op(ts[j2].kind).unwrap(), ab, c);
    assert(p_add_rest(ts, file, abc, j3) == (Ok::<ExprView, CompileErrorView>(abc), j3));
    assert(p_add_rest(ts, file, ab, j2) == (Ok::<ExprView, CompileErrorView>(abc), j3));
    assert(p_add_rest(ts, file, a, j1) == (Ok::<ExprView, CompileErrorView>(abc), j3));
}

/// The same for `&&` and `||`: when `a`, `b` and `c` are parsed as
/// comparisons one after another, with `&&` or `||` between them and no such
/// operator after `c`, `a op1 b op2 c` is `(a op1 b) op2 c`.
pub proof fn lemma_logical_groups_left(
    ts: Seq<Token>,
    file: FileId,
    i: int,
    j1: int,
    j2: int,
    j3: int,
    a: ExprView,
    b: ExprView,
    c: ExprView,
)
    requires
        i < j1 < j2 < j3 <= ts.len(),
        p_comp(ts, file, i) == (Ok::<ExprView, CompileErrorView>(a), j1),
        logical_op(ts[j1].kind) is Some,
        p_comp(ts, file, j1 + 1) == (Ok::<ExprView, CompileErrorView>(b), j2),
        logical_op(ts[j2].kind) is Some,
        p_comp(ts, file, j2 + 1) == (Ok::<ExprView, CompileErrorView>(c), j3),
        j3 == ts.len() || logical_op(ts[j3].kind) is None,
    ensures
        p_expr(ts, file, i) == (Ok::<ExprView, CompileErrorView>(binary_view(
            logical_op(ts[j2].kind).unwrap(),
            binary_view(logical_op(ts[j1].kind).unwrap(), a, b),
            c,
        )), j3),
{
    let ab = binary_view(logical_op(ts[j1].kind).unwrap(), a, b);
    let abc = binary_view(logical_op(ts[j2].kind).unwrap(), ab, c);
    assert(p_logical_rest(ts, file, abc, j3) == (Ok::<ExprView, CompileErrorView>(abc), j3));
    assert(p_logical_rest(ts, file, ab, j2) == (Ok::<ExprView, CompileErrorView>(abc), j3));
    assert(p_logical_rest(ts, file, a, j1) == (Ok::<ExprView, CompileErrorView>(abc), j3));
    assert(p_logical(ts, file, i) == (Ok::<ExprView, CompileErrorView>(abc), j3));
}

/// A whole expression of three literals joined by `*`, `/` or `%`, such as
/// `8 / 4 / 2`, is grouped to the left: `(8 / 4) / 2`.
pub proof fn lemma_literal_products_group_left(ts: Seq<Token>, file: FileId, i: int)
    requires
        three_literals_at(ts, i),
        mul_op(ts[i + 1].kind) is Some,
        mul_op(ts[i + 3].kind) is Some,
    ensures
        p_expr(ts, file, i) == (Ok::<ExprView, CompileErrorView>(binary_view(
            mul_op(ts[i + 3].kind).unwrap(),
            binary_view(mul_op(ts[i + 1].kind).unwrap(), literal_expr(ts[i]), literal_expr(ts[i + 2])),
            literal_expr(ts[i + 4]),
        )), i + 5),
{
    let e = binary_view(
        mul_op(ts[i + 3].kind).unwrap(),
        binary_view(mul_op(ts[i + 1].kind).unwrap(), literal_expr(ts[i]), literal_expr(ts[i + 2])),
        literal_expr(ts[i + 4]),
    );
    lemma_literal_operand(ts, file, i);
    lemma_literal_operand(ts, file, i + 2);
    lemma_literal_operand(ts, file, i + 4);
    lemma_mul_groups_left(ts, file, i, i + 1, i + 3, i + 5, literal_expr(ts[i]), literal_expr(ts[i + 2]), literal_expr(ts[i + 4]));
    lemma_rest_of_expr(ts, file, i, e);
}

/// A whole expression of three literals joined by `+` or `-`, such as
/// `8 - 4 - 2`, is grouped to the left: `(8 - 4) - 2`.
pub proof fn lemma_literal_sums_group_left(ts: Seq<Token>, file: FileId, i: int)
    requires
        three_literals_at(ts, i),
        add_op(ts[i + 1].kind) is Some,
        add_op(ts[i + 3].kind) is Some,
    ensures
        p_expr(ts, file, i) == (Ok::<ExprView, CompileErrorView>(binary_view(
            add_op(ts[i + 3].kind).unwrap(),
            binary_view(add_op(ts[i + 1].kind).unwrap(), literal_expr(ts[i]), literal_expr(ts[i + 2])),
            literal_expr(ts[i + 4]),
        )), i + 5),
{
    let a = literal_expr(ts[i]);
    let b = literal_expr(ts[i + 2]);
    let c = literal_expr(ts[i + 4]);
    let e = binary_view(add_op(ts[i + 3].kind).unwrap(), binary_view(add_op(ts[i + 1].kind).unwrap(), a, b), c);
    lemma_literal_product(ts, file, i);
    lemma_literal_product(ts, file, i + 2);
    lemma_literal_product(ts, file, i + 4);
    lemma_add_groups_left(ts, file, i, i + 1, i + 3, i + 5, a, b, c);
    lemma_sum_is_expr(ts, file, i, e);
}

/// `*`, `/` and `%` bind tighter than `+` and `-`, on either side:
/// `a + b * c` is `a + (b * c)` and `a * b + c` is `(a * b) + c`.
pub proof fn lemma_products_bind_tighter(ts: Seq<Token>, file: FileId, i: int)
    requires
        three_literals_at(ts, i),
        (add_op(ts[i + 1].kind) is Some && mul_op(ts[i + 3].kind) is Some)
            || (mul_op(ts[i + 1].kind) is Some && add_op(ts[i + 3].kind) is Some),
    ensures
        add_op(ts[i + 1].kind) is Some ==> p_expr(ts, file, i) == (Ok::<ExprView, CompileErrorView>(binary_view(
            add_op(ts[i + 1].kind).unwrap(),
            literal_expr(ts[i]),
            binary_view(mul_op(ts[i + 3].kind).unwrap(), literal_expr(ts[i + 2]), literal_expr(ts[i + 4])),
        )), i + 5),
        mul_op(ts[i + 1].kind) is Some ==> p_expr(ts, file, i) == (Ok::<ExprView, CompileErrorView>(binary_view(
            add_op(ts[i + 3].kind).unwrap(),
            binary_view(mul_op(ts[i + 1].kind).unwrap(), literal_expr(ts[i]), literal_expr(ts[i + 2])),
            literal_expr(ts[i + 4]),
        )), i + 5),
{
    let a = literal_expr(ts[i]);
    let b = literal_expr(ts[i + 2]);
    let c = literal_expr(ts[i + 4]);
    lemma_literal_operand(ts, file, i);
    lemma_literal_operand(ts, file, i + 2);
    lemma_literal_operand(ts, file, i + 4);
    if add_op(ts[i + 1].kind) is Some {
        let bc = binary_view(mul_op(ts[i + 3].kind).unwrap(), b, c);
        let e = binary_view(add_op(ts[i + 1].kind).unwrap(), a, bc);
        lemma_literal_product(ts, file, i);
        assert(p_mul_rest(ts, file, bc, i + 5) == (Ok::<ExprView, CompileErrorView>(bc), i + 5));
        assert(p_mul_rest(ts, file, b, i + 3) == (Ok::<ExprView, CompileErrorView>(bc), i + 5));
        assert(p_mul(ts, file, i + 2) == (Ok::<ExprView, CompileErrorView>(bc), i + 5));
        assert(p_add_rest(ts, file, e, i + 5) == (Ok::<ExprView, CompileErrorView>(e), i + 5));
        assert(p_add_rest(ts, file, a, i + 1) == (Ok::<ExprView, CompileErrorView>(e), i + 5));
        lemma_sum_is_expr(ts, file, i, e);
    } else {
        let ab = binary_view(mul_op(ts[i + 1].kind).unwrap(), a, b);
        let e = binary_view(add_op(ts[i + 3].kind).unwrap(), ab, c);
        lemma_literal_product(ts, file, i + 4);
        assert(p_mul_rest(ts, file, ab, i + 3) == (Ok::<ExprView, CompileErrorView>(ab), i + 3));
        assert(p_mul_rest(ts, file, a, i + 1) == (Ok::<ExprView, CompileErrorView>(ab), i + 3));
        assert(p_mul(ts, file, i) == (Ok::<ExprView, CompileErrorView>(ab), i + 3));
        assert(p_add_rest(ts, file, e, i + 5) == (Ok::<ExprView, CompileErrorView>(e), i + 5));
        assert(p_add_rest(ts, file, ab, i + 3) == (Ok::<ExprView, CompileErrorView>(e), i + 5));
        lemma_sum_is_expr(ts, file, i, e);
    }
}

/// A literal followed by an operator other than `*`, `/`, `%` is a product
/// of its own.
proof fn lemma_literal_product(ts: Seq<Token>, file: FileId, i: int)
    requires
        0 <= i < ts.len(),
        literal_of(ts[i].kind) is Some,
        i + 1 == ts.len() || mul_op(ts[i + 1].kind) is None,
    ensures
        p_mul(ts, file, i) == (Ok::<ExprView, CompileErrorView>(literal_expr(ts[i])), i + 1),
{
    lemma_literal_operand(ts, file, i);
    assert(p_mul_rest(ts, file, literal_expr(ts[i]), i + 1) == (Ok::<ExprView, CompileErrorView>(literal_expr(ts[i])), i + 1));
}

/// A product that no operator follows is the whole expression.
proof fn lemma_rest_of_expr(ts: Seq<Token>, file: FileId, i: int, e: ExprView)
    requires
        0 <= i,
        i + 5 <= ts.len(),
        no_operator_at(ts, i + 5),
        p_mul(ts, file, i) == (Ok::<ExprView, CompileErrorView>(e), i + 5),
    ensures
        p_expr(ts, file, i) == (Ok::<ExprView, CompileErrorView>(e), i + 5),
{
    assert(p_add_rest(ts, file, e, i + 5) == (Ok::<ExprView, CompileErrorView>(e), i + 5));
    assert(p_add(ts, file, i) == (Ok::<ExprView, CompileErrorView>(e), i + 5));
    lemma_sum_is_expr(ts, file, i, e);
}

/// A sum that no operator follows is the whole expression.
proof fn lemma_sum_is_expr(ts: Seq<Token>, file: FileId, i: int, e: ExprView)
    requires
        0 <= i,
        i + 5 <= ts.len(),
        no_operator_at(ts, i + 5),
        p_add(ts, file, i) == (Ok::<ExprView, CompileErrorView>(e), i + 5),
    ensures
        p_expr(ts, file, i) == (Ok::<ExprView, CompileErrorView>(e), i + 5),
{
    assert(p_comp(ts, file, i) == (Ok::<ExprView, CompileErrorView>(e), i + 5));
    assert(p_logical_rest(ts, file, e, i + 5) == (Ok::<ExprView, CompileErrorView>(e), i + 5));
    assert(p_logical(ts, file, i) == (Ok::<ExprView, CompileErrorView>(e), i + 5));
}

/// A tree's contents after adding one item: a function goes in the next
/// slot, under its name; an import adds a one-segment path.
pub open spec fn add_item(p: AstView, item: ItemView) -> AstView {
    match item {
        ItemView::Function { name, signiture, body } => AstView {
            entries: insert_entry(p.entries, name@, p.signitures.len() as u32),
            signitures: p.signitures.push(signiture),
            bodies: p.bodies.push(body),
            imports: p.imports,
        },
        ItemView::Import(name) => AstView { imports: p.imports.push(seq![name@]), ..p },
    }
}

/// A tree's contents after adding the items in order.
pub open spec fn add_items(p: AstView, items: Seq<ItemView>) -> AstView
    decreases items.len(),
{
    if items.len() == 0 {
        p
    } else {
        add_items(add_item(p, items[0]), items.drop_first())
    }
}

/// A tree with nothing in it.
pub open spec fn empty_ast_view() -> AstView {
    AstView { entries: Seq::empty(), signitures: Seq::empty(), bodies: Seq::empty(), imports: Seq::empty() }
}

/// Adding items never gives the name map more entries than there are signatures.
pub proof fn lemma_add_items_counts(p: AstView, items: Seq<ItemView>)
    requires
        p.entries.len() <= p.signitures.len(),
    ensures
        add_items(p, items).entries.len() <= add_items(p, items).signitures.len(),
    decreases items.len(),
{
    if items.len() > 0 {
        let q = add_item(p, items[0]);
        assert(q.entries.len() <= q.signitures.len());
        lemma_add_items_counts(q, items.drop_first());
    }
}

/// Each function's slot in the tree's map is the count of functions before
/// it, so while there are at most `u32::MAX` of them every slot names a
/// signature.
pub proof fn lemma_add_items_slots(p: AstView, items: Seq<ItemView>)
    requires
        slots_below(p.entries, p.signitures.len() as int),
        add_items(p, items).signitures.len() <= u32::MAX,
    ensures
        slots_below(add_items(p, items).entries, add_items(p, items).signitures.len() as int),
        p.signitures.len() <= add_items(p, items).signitures.len(),
    decreases items.len(),
{
    if items.len() > 0 {
        let q = add_item(p, items[0]);
        if let ItemView::Function { name, signiture, body } = items[0] {
            let slot = p.signitures.len() as u32;
            lemma_add_items_slots_grow(q, items.drop_first());
            assert(slot as int == p.signitures.len());
            assert forall|k: int| 0 <= k < q.entries.len() implies (#[trigger] q.entries[k]).1 < q.signitures.len() by {
                if exists|i: int| 0 <= i < p.entries.len() && p.entries[i].0 == name@ {
                    let i = choose|i: int| 0 <= i < p.entries.len() && p.entries[i].0 == name@;
                    if k != i {
                        assert(q.entries[k] == p.entries[k]);
                    }
                } else {
                    if k < p.entries.len() {
                        assert(q.entries[k] == p.entries[k]);
                    }
                }
            }
        }
        lemma_add_items_slots(q, items.drop_first());
    }
}

/// Adding items never takes signatures away.
proof fn lemma_add_items_slots_grow(p: AstView, items: Seq<ItemView>)
    ensures
        p.signitures.len() <= add_items(p, items).signitures.len(),
    decreases items.len(),
{
    if items.len() > 0 {
        lemma_add_items_slots_grow(add_item(p, items[0]), items.drop_first());
    }
}

/// The plain-data form of a statement result.
pub open spec fn stmt_result(r: Result<Statement, CompileError>) -> Result<StatementView, CompileErrorView> {
    match r {
        Ok(s) => Ok(s@),
        Err(e) => Err(e@),
    }
}

pub open spec fn stmts_result(r: Result<Vec<Statement>, CompileError>) -> Result<Seq<StatementView>, CompileErrorView> {
    match r {
        Ok(v) => Ok(statements_view(v@)),
        Err(e) => Err(e@),
    }
}

/// The plain-data form of an item result.
pub open spec fn item_view(name: String, sig: SpannedFunctionSigniture, body: Vec<Statement>) -> ItemView {
    ItemView::Function { name, signiture: sig_view(sig), body: statements_view(body@) }
}

/// The expression parser's plain-data result.
pub open spec fn expr_result(r: Result<Expr, CompileError>) -> Result<ExprView, CompileErrorView> {
    match r {
        Ok(e) => Ok(e@),
        Err(e) => Err(e@),
    }
}

/// The plain-data form of an argument list result.
pub open spec fn args_result(r: Result<Vec<Expr>, CompileError>) -> Result<Seq<ExprView>, CompileErrorView> {
    match r {
        Ok(v) => Ok(crate::ast::exprs_view(v@)),
        Err(e) => Err(e@),
    }
}

pub open spec fn span_result(r: Result<Span, CompileError>) -> Result<Span, CompileErrorView> {
    match r {
        Ok(s) => Ok(s),
        Err(e) => Err(e@),
    }
}

/// Whether `k` is `e`, for a kind `e` without data.
fn same_kind(k: &TokenKind, e: &TokenKind) -> (b: bool)
    requires
        simple_kind(*e),
    ensures
        b == (*k == *e),
{
    match e {
        TokenKind::EOL => matches!(k, TokenKind::EOL),
        TokenKind::Assign => matches!(k, TokenKind::Assign),
        TokenKind::Comma => matches!(k, TokenKind::Comma),
        TokenKind::Colon => matches!(k, TokenKind::Colon),
        TokenKind::ParenL => matches!(k, TokenKind::ParenL),
        TokenKind::ParenR => matches!(k, TokenKind::ParenR),
        TokenKind::BraceL => matches!(k, TokenKind::BraceL),
        TokenKind::BraceR => matches!(k, TokenKind::BraceR),
        TokenKind::If => matches!(k, TokenKind::If),
        TokenKind::Else => matches!(k, TokenKind::Else),
        TokenKind::Let => matches!(k, TokenKind::Let),
        TokenKind::While => matches!(k, TokenKind::While),
        TokenKind::Return => matches!(k, TokenKind::Return),
        _ => matches!(k, TokenKind::Import),
    }
}

fn token_to_logical_op(k: &TokenKind) -> (r: Option<BinaryOp>)
    ensures
        r == logical_op(*k),
{
    match k {
        TokenKind::And => Some(BinaryOp::And),
        TokenKind::Or => Some(BinaryOp::Or),
        _ => None,
    }
}

fn token_to_comp_op(k: &TokenKind) -> (r: Option<BinaryOp>)
    ensures
        r == comp_op(*k),
{
    match k {
        TokenKind::Equal => Some(BinaryOp::Equal),
        TokenKind::NotEqual => Some(BinaryOp::NotEqual),
        TokenKind::Less => Some(BinaryOp::Less),
        TokenKind::LessEqual => Some(BinaryOp::LessEqual),
        TokenKind::Greater => Some(BinaryOp::Greater),
        TokenKind::GreaterEqual => Some(BinaryOp::GreaterEqual),
        _ => None,
    }
}

fn token_to_add_op(k: &TokenKind) -> (r: Option<BinaryOp>)
    ensures
        r == add_op(*k),
{
    match k {
        TokenKind::Plus => Some(BinaryOp::Add),
        TokenKind::Minus => Some(BinaryOp::Sub),
        _ => None,
    }
}

fn token_to_mul_op(token: &Token) -> (r: Option<BinaryOp>)
    ensures
        r == mul_op(token.kind),
{
    match &token.kind {
        TokenKind::Asterisk => Some(BinaryOp::Mul),
        TokenKind::Slash => Some(BinaryOp::Div),
        TokenKind::Modulo => Some(BinaryOp::Modulo),
        _ => None,
    }
}

fn token_to_unary_op(token: &Token) -> (r: Option<UnaryOp>)
    ensures
        r == unary_op(token.kind),
{
    match &token.kind {
        TokenKind::Not => Some(UnaryOp::Not),
        TokenKind::Minus => Some(UnaryOp::Negate),
        _ => None,
    }
}

fn literal_value(k: &TokenKind) -> (r: Option<Value>)
    ensures
        r == literal_of(*k),
{
    match k {
        TokenKind::Bool(b) => Some(Value::Bool(*b)),
        TokenKind::Int(n) => Some(Value::Int(*n)),
        TokenKind::Float(bits) => Some(Value::Float(*bits)),
        TokenKind::StringLiteral(s) => Some(Value::String(s.clone())),
        _ => None,
    }
}

/// A parser over a token slice. It builds an `Ast` as it reads the top level.
pub struct Parser<'a> {
    file_id: FileId,
    tokens: &'a [Token],
    index: usize,
    ast: Ast,
}

impl<'a> Parser<'a> {
    pub closed spec fn tokens(&self) -> Seq<Token> {
        self.tokens@
    }

    pub closed spec fn file_id(&self) -> FileId {
        self.file_id
    }

    /// The index of the next token to read.
    pub closed spec fn index(&self) -> int {
        self.index as int
    }

    pub closed spec fn ast(&self) -> Ast {
        self.ast
    }

    /// The index lies within the tokens, which all lie in one file.
    pub closed spec fn wf(&self) -> bool {
        &&& self.index <= self.tokens@.len()
        &&& same_file(self.tokens@)
        &&& self.ast.wf()
    }

    /// Same tokens, file and tree as `other`.
    pub open spec fn same_input(&self, other: &Self) -> bool {
        &&& self.tokens() == other.tokens()
        &&& self.file_id() == other.file_id()
        &&& self.ast() == other.ast()
    }

    /// A parser at the start of `tokens`, with an empty tree.
    pub fn new(tokens: &'a [Token], file_id: FileId) -> (p: Self)
        requires
            same_file(tokens@),
        ensures
            p.wf(),
            p.tokens() == tokens@,
            p.file_id() == file_id,
            p.index() == 0,
            p.ast().function_map().entries().len() == 0,
            p.ast().signitures().len() == 0,
            p.ast().bodies().len() == 0,
            p.ast().imports().len() == 0,
    {
        Parser { file_id, tokens, index: 0, ast: Ast::empty() }
    }

    /// The current token, if there is one; the index stays.
    fn peek(&self) -> (r: Option<&Token>)
        ensures
            r == (if 0 <= self.index() < self.tokens().len() {
                Some(&self.tokens()[self.index()])
            } else {
                None
            }),
    {
        if self.index < self.tokens.len() {
            Some(&self.tokens[self.index])
        } else {
            None
        }
    }

    /// The current token's kind, if there is one; the index stays.
    fn peek_kind(&self) -> (r: Option<&TokenKind>)
        ensures
            r == (if 0 <= self.index() < self.tokens().len() {
                Some(&self.tokens()[self.index()].kind)
            } else {
                None
            }),
    {
        match self.peek() {
            Some(t) => Some(&t.kind),
            None => None,
        }
    }

    /// Whether the next token is of kind `k`.
    fn at(&self, k: &TokenKind) -> (b: bool)
        requires
            simple_kind(*k),
        ensures
            b == at_kind(self.tokens(), self.index(), *k),
    {
        self.index < self.tokens.len() && same_kind(&self.tokens[self.index].kind, k)
    }

    fn skip(&mut self)
        requires
            old(self).wf(),
            old(self).index() < old(self).tokens().len(),
        ensures
            final(self).wf(),
            final(self).same_input(old(self)),
            final(self).index() == old(self).index() + 1,
    {
        if self.index < self.tokens.len() {
            self.index = self.index + 1;
        }
    }

    fn eof_err(&self) -> (e: CompileError)
        ensures
            e@ == eof_error(self.tokens()),
    {
        let span = if self.tokens.len() > 0 {
            self.tokens[self.tokens.len() - 1].span
        } else {
            Span::new(0, 0, 0)
        };
        CompileError::unexpected_end_of_file_at(span)
    }

    /// Takes the next token, which must be of kind `k`.
    fn expect_kind(&mut self, k: &TokenKind) -> (r: Result<Span, CompileError>)
        requires
            old(self).wf(),
            simple_kind(*k),
        ensures
            final(self).wf(),
            final(self).same_input(old(self)),
            final(self).index() == expect(old(self).tokens(), old(self).index(), *k).1,
            span_result(r) == expect(old(self).tokens(), old(self).index(), *k).0,
            r matches Ok(s) ==> s.file == tokens_file(old(self).tokens()),
    {
        if self.index >= self.tokens.len() {
            return Err(self.eof_err());
        }
        let i = self.index;
        self.index = i + 1;
        if same_kind(&self.tokens[i].kind, k) {
            Ok(self.tokens[i].span)
        } else {
            Err(CompileError::unexpected_token_at(self.tokens[i].kind.duplicate(), self.tokens[i].span))
        }
    }

    /// Takes the next token, which must be an identifier.
    fn expect_ident(&mut self) -> (r: Result<(String, Span), CompileError>)
        requires
            old(self).wf(),
        ensures
            final(self).wf(),
            final(self).same_input(old(self)),
            final(self).index() == expect_ident(old(self).tokens(), old(self).index()).1,
            match expect_ident(old(self).tokens(), old(self).index()).0 {
                Ok(x) => r matches Ok(y) && y == x,
                Err(e) => r matches Err(y) && y@ == e,
            },
            r matches Ok(x) ==> x.1.file == tokens_file(old(self).tokens()),
    {
        if self.index >= self.tokens.len() {
            return Err(self.eof_err());
        }
        let i = self.index;
        self.index = i + 1;
        match &self.tokens[i].kind {
            TokenKind::Ident(name) => Ok((name.clone(), self.tokens[i].span)),
            _ => Err(CompileError::unexpected_token_at(self.tokens[i].kind.duplicate(), self.tokens[i].span)),
        }
    }

    /// Takes the next token, which must be a type name.
    fn expect_data_type(&mut self) -> (r: Result<(DataType, Span), CompileError>)
        requires
            old(self).wf(),
        ensures
            final(self).wf(),
            final(self).same_input(old(self)),
            final(self).index() == expect_data_type(old(self).tokens(), old(self).index()).1,
            match expect_data_type(old(self).tokens(), old(self).index()).0 {
                Ok(x) => r matches Ok(y) && y == x,
                Err(e) => r matches Err(y) && y@ == e,
            },
            r matches Ok(x) ==> x.1.file == tokens_file(old(self).tokens()),
    {
        if self.index >= self.tokens.len() {
            return Err(self.eof_err());
        }
        let i = self.index;
        self.index = i + 1;
        match &self.tokens[i].kind {
            TokenKind::DataType(t) => Ok((t.duplicate(), self.tokens[i].span)),
            _ => Err(CompileError::unexpected_token_at(self.tokens[i].kind.duplicate(), self.tokens[i].span)),
        }
    }

    /// `self` is `before` moved on to the index that `parsed` gives, with the
    /// expression result `r` as `parsed` gives it.
    pub open spec fn parsed_expr(&self, before: &Self, r: Result<Expr, CompileError>, parsed: Parsed<ExprView>) -> bool {
        &&& self.wf()
        &&& self.same_input(before)
        &&& self.index() == parsed.1
        &&& expr_result(r) == parsed.0
        &&& before.index() <= self.index()
        &&& r is Ok ==> before.index() < self.index()
        &&& r matches Ok(e) ==> e.span.file == tokens_file(before.tokens())
    }

    /// Parses an expression at the current token.
    pub fn parse_expr(&mut self) -> (r: Result<Expr, CompileError>)
        requires
            old(self).wf(),
        ensures
            final(self).parsed_expr(old(self), r, p_expr(old(self).tokens(), old(self).file_id(), old(self).index())),
        decreases old(self).tokens().len() - old(self).index(), 20nat,
    {
        self.parse_logical_expr()
    }

    fn parse_logical_expr(&mut self) -> (r: Result<Expr, CompileError>)
        requires
            old(self).wf(),
        ensures
            final(self).parsed_expr(old(self), r, p_logical(old(self).tokens(), old(self).file_id(), old(self).index())),
        decreases old(self).tokens().len() - old(self).index(), 19nat,
    {
        let lhs = self.parse_comp_expr()?;
        self.parse_logical_rest(lhs)
    }

    fn parse_logical_rest(&mut self, lhs: Expr) -> (r: Result<Expr, CompileError>)
        requires
            old(self).wf(),
            lhs.span.file == tokens_file(old(self).tokens()),
        ensures
            final(self).wf(),
            final(self).same_input(old(self)),
            final(self).index() == p_logical_rest(old(self).tokens(), old(self).file_id(), lhs@, old(self).index()).1,
            expr_result(r) == p_logical_rest(old(self).tokens(), old(self).file_id(), lhs@, old(self).index()).0,
            old(self).index() <= final(self).index(),
            r matches Ok(e) ==> e.span.file == tokens_file(old(self).tokens()),
        decreases old(self).tokens().len() - old(self).index(), 19nat,
    {
        if self.index >= self.tokens.len() {
            return Ok(lhs);
        }
        match token_to_logical_op(&self.tokens[self.index].kind) {
            None => Ok(lhs),
            Some(op) => {
                self.skip();
                let rhs = self.parse_comp_expr()?;
                let span = lhs.span.join(rhs.span);
                self.parse_logical_rest(Expr::binary_op(op, lhs, rhs, span))
            },
        }
    }

    fn parse_comp_expr(&mut self) -> (r: Result<Expr, CompileError>)
        requires
            old(self).wf(),
        ensures
            final(self).parsed_expr(old(self), r, p_comp(old(self).tokens(), old(self).file_id(), old(self).index())),
        decreases old(self).tokens().len() - old(self).index(), 18nat,
    {
        let lhs = self.parse_add_expr()?;
        if self.index < self.tokens.len() {
            if let Some(op) = token_to_comp_op(&self.tokens[self.index].kind) {
                self.skip();
                let rhs = self.parse_add_expr()?;
                let span = lhs.span.join(rhs.span);
                return Ok(Expr::binary_op(op, lhs, rhs, span));
            }
        }
        Ok(lhs)
    }

    fn parse_add_expr(&mut self) -> (r: Result<Expr, CompileError>)
        requires
            old(self).wf(),
        ensures
            final(self).parsed_expr(old(self), r, p_add(old(self).tokens(), old(self).file_id(), old(self).index())),
        decreases old(self).tokens().len() - old(self).index(), 17nat,
    {
        let lhs = self.parse_mul_expr()?;
        self.parse_add_rest(lhs)
    }

    fn parse_add_rest(&mut self, lhs: Expr) -> (r: Result<Expr, CompileError>)
        requires
            old(self).wf(),
            lhs.span.file == tokens_file(old(self).tokens()),
        ensures
            final(self).wf(),
            final(self).same_input(old(self)),
            final(self).index() == p_add_rest(old(self).tokens(), old(self).file_id(), lhs@, old(self).index()).1,
            expr_result(r) == p_add_rest(old(self).tokens(), old(self).file_id(), lhs@, old(self).index()).0,
            old(self).index() <= final(self).index(),
            r matches Ok(e) ==> e.span.file == tokens_file(old(self).tokens()),
        decreases old(self).tokens().len() - old(self).index(), 17nat,
    {
        if self.index >= self.tokens.len() {
            return Ok(lhs);
        }
        match token_to_add_op(&self.tokens[self.index].kind) {
            None => Ok(lhs),
            Some(op) => {
                self.skip();
                let rhs = self.parse_mul_expr()?;
                let span = lhs.span.join(rhs.span);
                self.parse_add_rest(Expr::binary_op(op, lhs, rhs, span))
            },
        }
    }

    fn parse_mul_expr(&mut self) -> (r: Result<Expr, CompileError>)
        requires
            old(self).wf(),
        ensures
            final(self).parsed_expr(old(self), r, p_mul(old(self).tokens(), old(self).file_id(), old(self).index())),
        decreases old(self).tokens().len() - old(self).index(), 16nat,
    {
        let lhs = self.parse_unary_op_expr()?;
        self.parse_mul_rest(lhs)
    }

    fn parse_mul_rest(&mut self, lhs: Expr) -> (r: Result<Expr, CompileError>)
        requires
            old(self).wf(),
            lhs.span.file == tokens_file(old(self).tokens()),
        ensures
            final(self).wf(),
            final(self).same_input(old(self)),
            final(self).index() == p_mul_rest(old(self).tokens(), old(self).file_id(), lhs@, old(self).index()).1,
            expr_result(r) == p_mul_rest(old(self).tokens(), old(self).file_id(), lhs@, old(self).index()).0,
            old(self).index() <= final(self).index(),
            r matches Ok(e) ==> e.span.file == tokens_file(old(self).tokens()),
        decreases old(self).tokens().len() - old(self).index(), 16nat,
    {
        if self.index >= self.tokens.len() {
            return Ok(lhs);
        }
        match token_to_mul_op(&self.tokens[self.index]) {
            None => Ok(lhs),
            Some(op) => {
                self.skip();
                let rhs = self.parse_unary_op_expr()?;
                let span = lhs.span.join(rhs.span);
                self.parse_mul_rest(Expr::binary_op(op, lhs, rhs, span))
            },
        }
    }

    fn parse_unary_op_expr(&mut self) -> (r: Result<Expr, CompileError>)
        requires
            old(self).wf(),
        ensures
            final(self).parsed_expr(old(self), r, p_unary(old(self).tokens(), old(self).file_id(), old(self).index())),
        decreases old(self).tokens().len() - old(self).index(), 15nat,
    {
        if self.index >= self.tokens.len() {
            return Err(CompileError::unexpected_end_of_file(self.file_id));
        }
        let i = self.index;
        match token_to_unary_op(&self.tokens[i]) {
            None => self.parse_atom_expr(),
            Some(op) => {
                let token_span = self.tokens[i].span;
                self.skip();
                let expr = self.parse_unary_op_expr()?;
                let span = token_span.join(expr.span);
                Ok(Expr::unary_op(op, expr, span))
            },
        }
    }

    fn parse_atom_expr(&mut self) -> (r: Result<Expr, CompileError>)
        requires
            old(self).wf(),
        ensures
            final(self).parsed_expr(old(self), r, p_atom(old(self).tokens(), old(self).file_id(), old(self).index())),
        decreases old(self).tokens().len() - old(self).index(), 14nat,
    {
        if self.index >= self.tokens.len() {
            return Err(CompileError::unexpected_end_of_file(self.file_id));
        }
        let i = self.index;
        let token_span = self.tokens[i].span;
        if let Some(v) = literal_value(&self.tokens[i].kind) {
            self.skip();
            return Ok(Expr::literal(v, token_span));
        }
        if matches!(self.tokens[i].kind, TokenKind::Ident(_)) {
            return self.parse_ident_expr();
        }
        if matches!(self.tokens[i].kind, TokenKind::ParenL) {
            self.skip();
            let inner = self.parse_expr();
            return match self.expect_kind(&TokenKind::ParenR) {
                Ok(_) => inner,
                Err(e) => Err(e),
            };
        }
        self.skip();
        Err(CompileError::unexpected_token_at(self.tokens[i].kind.duplicate(), token_span))
    }

    fn parse_ident_expr(&mut self) -> (r: Result<Expr, CompileError>)
        requires
            old(self).wf(),
        ensures
            final(self).parsed_expr(old(self), r, p_ident_expr(old(self).tokens(), old(self).file_id(), old(self).index())),
        decreases old(self).tokens().len() - old(self).index(), 13nat,
    {
        let (ident, ident_span) = self.expect_ident()?;
        if self.at(&TokenKind::ParenL) {
            self.skip();
            let args = self.parse_args()?;
            let end_span = self.expect_kind(&TokenKind::ParenR)?;
            let span = ident_span.join(end_span);
            match BuiltinFunction::from_name(ident.as_str()) {
                Ok(function) => Ok(Expr::builtin_function_call(function, args, span)),
                Err(_) => Ok(Expr::function_call(ident, args, span)),
            }
        } else if self.at(&TokenKind::Colon) {
            self.skip();
            let (func_name, _) = self.expect_ident()?;
            self.expect_kind(&TokenKind::ParenL)?;
            let args = self.parse_args()?;
            let end_span = self.expect_kind(&TokenKind::ParenR)?;
            let span = ident_span.join(end_span);
            Ok(Expr::foreign_function_call(ident, func_name, args, span))
        } else {
            Ok(Expr::var(ident, ident_span))
        }
    }

    /// Parses call arguments separated by commas, up to (not including) a `)`.
    pub fn parse_args(&mut self) -> (r: Result<Vec<Expr>, CompileError>)
        requires
            old(self).wf(),
        ensures
            final(self).wf(),
            final(self).same_input(old(self)),
            final(self).index() == p_args(old(self).tokens(), old(self).file_id(), old(self).index(), Seq::empty()).1,
            args_result(r) == p_args(old(self).tokens(), old(self).file_id(), old(self).index(), Seq::empty()).0,
            old(self).index() <= final(self).index(),
        decreases old(self).tokens().len() - old(self).index(), 22nat,
    {
        let acc: Vec<Expr> = Vec::new();
        assert(crate::ast::exprs_view(acc@) =~= Seq::<ExprView>::empty());
        self.parse_args_from(acc)
    }

    fn parse_args_from(&mut self, acc: Vec<Expr>) -> (r: Result<Vec<Expr>, CompileError>)
        requires
            old(self).wf(),
        ensures
            final(self).wf(),
            final(self).same_input(old(self)),
            final(self).index() == p_args(old(self).tokens(), old(self).file_id(), old(self).index(), crate::ast::exprs_view(acc@)).1,
            args_result(r) == p_args(old(self).tokens(), old(self).file_id(), old(self).index(), crate::ast::exprs_view(acc@)).0,
            old(self).index() <= final(self).index(),
        decreases old(self).tokens().len() - old(self).index(), 21nat,
    {
        if self.index >= self.tokens.len() || same_kind(&self.tokens[self.index].kind, &TokenKind::ParenR) {
            return Ok(acc);
        }
        let e = self.parse_expr()?;
        let ghost before = acc@;
        let mut acc = acc;
        acc.push(e);
        assert(acc@.drop_last() =~= before);
        if self.at(&TokenKind::Comma) {
            self.skip();
            self.parse_args_from(acc)
        } else {
            Ok(acc)
        }
    }

    /// `self` is `before` moved on to the index that `parsed` gives, with the
    /// statement result `r` as `parsed` gives it.
    pub open spec fn parsed_stmt(&self, before: &Self, r: Result<Statement, CompileError>, parsed: Parsed<StatementView>) -> bool {
        &&& self.wf()
        &&& self.same_input(before)
        &&& self.index() == parsed.1
        &&& stmt_result(r) == parsed.0
        &&& before.index() <= self.index()
        &&& r is Ok ==> before.index() < self.index()
        &&& r matches Ok(s) ==> s.span.file == tokens_file(before.tokens())
    }

    /// Parses statements up to (not including) a token of kind `critical_kind`.
    fn parse_statements(&mut self, critical_kind: &TokenKind) -> (r: Result<Vec<Statement>, CompileError>)
        requires
            old(self).wf(),
            simple_kind(*critical_kind),
        ensures
            final(self).wf(),
            final(self).same_input(old(self)),
            final(self).index() == p_statements(old(self).tokens(), old(self).file_id(), old(self).index(), *critical_kind, Seq::empty()).1,
            stmts_result(r) == p_statements(old(self).tokens(), old(self).file_id(), old(self).index(), *critical_kind, Seq::empty()).0,
            old(self).index() <= final(self).index(),
        decreases old(self).tokens().len() - old(self).index(), 31nat,
    {
        let acc: Vec<Statement> = Vec::new();
        assert(statements_view(acc@) =~= Seq::<StatementView>::empty());
        self.parse_statements_from(critical_kind, acc)
    }

    fn parse_statements_from(&mut self, critical_kind: &TokenKind, acc: Vec<Statement>) -> (r: Result<Vec<Statement>, CompileError>)
        requires
            old(self).wf(),
            simple_kind(*critical_kind),
        ensures
            final(self).wf(),
            final(self).same_input(old(self)),
            final(self).index() == p_statements(old(self).tokens(), old(self).file_id(), old(self).index(), *critical_kind, statements_view(acc@)).1,
            stmts_result(r) == p_statements(old(self).tokens(), old(self).file_id(), old(self).index(), *critical_kind, statements_view(acc@)).0,
            old(self).index() <= final(self).index(),
        decreases old(self).tokens().len() - old(self).index(), 30nat,
    {
        if self.index >= self.tokens.len() || same_kind(&self.tokens[self.index].kind, critical_kind) {
            return Ok(acc);
        }
        if same_kind(&self.tokens[self.index].kind, &TokenKind::EOL) {
            self.skip();
            return self.parse_statements_from(critical_kind, acc);
        }
        let statement = self.parse_statement()?;
        let ghost before = acc@;
        let mut acc = acc;
        acc.push(statement);
        assert(acc@.drop_last() =~= before);
        self.parse_statements_from(critical_kind, acc)
    }

    fn parse_statement(&mut self) -> (r: Result<Statement, CompileError>)
        requires
            old(self).wf(),
        ensures
            final(self).parsed_stmt(old(self), r, p_statement(old(self).tokens(), old(self).file_id(), old(self).index())),
        decreases old(self).tokens().len() - old(self).index(), 29nat,
    {
        if self.index >= self.tokens.len() {
            return Err(self.eof_err());
        }
        let i = self.index;
        let tokens = self.tokens;
        let token_span = tokens[i].span;
        match &tokens[i].kind {
            TokenKind::Return => {
                self.skip();
                if self.at(&TokenKind::EOL) {
                    self.skip();
                    Ok(Statement::return_statement(Expr::literal(Value::Void, token_span), token_span))
                } else {
                    let expr = self.parse_expr()?;
                    self.expect_kind(&TokenKind::EOL)?;
                    Ok(Statement::return_statement(expr, token_span))
                }
            },
            TokenKind::DataType(t) => {
                let data_type = t.duplicate();
                self.skip();
                self.parse_declaration(token_span, Some(data_type))
            },
            TokenKind::Let => {
                self.skip();
                self.parse_declaration(token_span, None)
            },
            TokenKind::Ident(_) => self.parse_ident_statement(),
            TokenKind::If => self.parse_if_statement(),
            TokenKind::While => {
                self.skip();
                let cond = self.parse_expr()?;
                self.expect_kind(&TokenKind::BraceL)?;
                let stmts = self.parse_statements(&TokenKind::BraceR)?;
                let end = self.expect_kind(&TokenKind::BraceR)?;
                Ok(Statement::while_statement(cond, stmts, token_span.join(end)))
            },
            _ => {
                let expr = self.parse_expr()?;
                self.expect_kind(&TokenKind::EOL)?;
                let span = expr.span;
                Ok(Statement::expr_statement(expr, span))
            },
        }
    }

    /// The rest of a declaration, after its type or `let`, which stood at the index before.
    fn parse_declaration(&mut self, token_span: Span, data_type: Option<DataType>) -> (r: Result<Statement, CompileError>)
        requires
            old(self).wf(),
            old(self).index() >= 1,
            token_span == old(self).tokens()[old(self).index() - 1].span,
        ensures
            final(self).parsed_stmt(old(self), r, p_declare(old(self).tokens(), old(self).file_id(), old(self).index() - 1, data_type)),
        decreases old(self).tokens().len() - old(self).index() + 1, 28nat,
    {
        let (ident, _) = self.expect_ident()?;
        self.expect_kind(&TokenKind::Assign)?;
        let expr = self.parse_expr()?;
        self.expect_kind(&TokenKind::EOL)?;
        let span = token_span.join(expr.span);
        Ok(Statement::var_declare(data_type, ident, expr, span))
    }

    fn parse_ident_statement(&mut self) -> (r: Result<Statement, CompileError>)
        requires
            old(self).wf(),
        ensures
            final(self).parsed_stmt(old(self), r, p_ident_statement(old(self).tokens(), old(self).file_id(), old(self).index())),
        decreases old(self).tokens().len() - old(self).index(), 28nat,
    {
        let start = self.index;
        let (ident, _) = self.expect_ident()?;
        if self.at(&TokenKind::Assign) {
            let assign_span = self.expect_kind(&TokenKind::Assign)?;
            let expr = self.parse_expr()?;
            self.expect_kind(&TokenKind::EOL)?;
            let span = assign_span.join(expr.span);
            Ok(Statement::var_assign(ident, expr, span))
        } else {
            self.index = start;
            let expr = self.parse_expr()?;
            self.expect_kind(&TokenKind::EOL)?;
            let span = expr.span;
            Ok(Statement::expr_statement(expr, span))
        }
    }

    fn parse_if_statement(&mut self) -> (r: Result<Statement, CompileError>)
        requires
            old(self).wf(),
        ensures
            final(self).parsed_stmt(old(self), r, p_if(old(self).tokens(), old(self).file_id(), old(self).index())),
        decreases old(self).tokens().len() - old(self).index(), 28nat,
    {
        let if_span = self.expect_kind(&TokenKind::If)?;
        let cond = self.parse_expr()?;
        self.expect_kind(&TokenKind::BraceL)?;
        let if_block = self.parse_statements(&TokenKind::BraceR)?;
        let brace_r_span = self.expect_kind(&TokenKind::BraceR)?;
        if !self.at(&TokenKind::Else) {
            return Ok(Statement::if_statement(cond, if_block, None, if_span.join(brace_r_span)));
        }
        self.skip();
        if self.at(&TokenKind::If) {
            let else_if = self.parse_if_statement()?;
            let end_span = else_if.span;
            let mut else_block: Vec<Statement> = Vec::new();
            else_block.push(else_if);
            proof {
                let v = else_block@;
                assert(v.drop_last() =~= Seq::<Statement>::empty());
                assert(statements_view(v.drop_last()) == Seq::<StatementView>::empty());
                assert(statements_view(v) == statements_view(v.drop_last()).push(v.last()@));
                assert(statements_view(v) =~= seq![v[0]@]);
            }
            Ok(Statement::if_statement(cond, if_block, Some(else_block), if_span.join(end_span)))
        } else {
            self.expect_kind(&TokenKind::BraceL)?;
            let else_block = self.parse_statements(&TokenKind::BraceR)?;
            let end_span = self.expect_kind(&TokenKind::BraceR)?;
            Ok(Statement::if_statement(cond, if_block, Some(else_block), if_span.join(end_span)))
        }
    }

    /// Parses parameters `T x` separated by commas, up to (not including) a `)`.
    fn parse_named_parameters(&mut self) -> (r: Result<Vec<SpannedParameter>, CompileError>)
        requires
            old(self).wf(),
        ensures
            final(self).wf(),
            final(self).same_input(old(self)),
            final(self).index() == p_params(old(self).tokens(), old(self).index(), Seq::empty()).1,
            match p_params(old(self).tokens(), old(self).index(), Seq::empty()).0 {
                Ok(ps) => r matches Ok(v) && v@ == ps,
                Err(e) => r matches Err(x) && x@ == e,
            },
            old(self).index() <= final(self).index(),
    {
        self.parse_params_from(Vec::new())
    }

    fn parse_params_from(&mut self, acc: Vec<SpannedParameter>) -> (r: Result<Vec<SpannedParameter>, CompileError>)
        requires
            old(self).wf(),
        ensures
            final(self).wf(),
            final(self).same_input(old(self)),
            final(self).index() == p_params(old(self).tokens(), old(self).index(), acc@).1,
            match p_params(old(self).tokens(), old(self).index(), acc@).0 {
                Ok(ps) => r matches Ok(v) && v@ == ps,
                Err(e) => r matches Err(x) && x@ == e,
            },
            old(self).index() <= final(self).index(),
        decreases old(self).tokens().len() - old(self).index(),
    {
        if self.index >= self.tokens.len() || same_kind(&self.tokens[self.index].kind, &TokenKind::ParenR) {
            return Ok(acc);
        }
        let (data_type, type_span) = self.expect_data_type()?;
        let (name, name_span) = self.expect_ident()?;
        let mut acc = acc;
        acc.push(SpannedParameter { name, data_type, span: type_span.join(name_span) });
        if self.at(&TokenKind::Comma) {
            self.skip();
            self.parse_params_from(acc)
        } else {
            Ok(acc)
        }
    }

    /// Parses a function definition at its return type.
    fn parse_function(&mut self) -> (r: Result<(String, SpannedFunctionSigniture, Vec<Statement>), CompileError>)
        requires
            old(self).wf(),
        ensures
            final(self).wf(),
            final(self).same_input(old(self)),
            final(self).index() == p_function(old(self).tokens(), old(self).file_id(), old(self).index()).1,
            match p_function(old(self).tokens(), old(self).file_id(), old(self).index()).0 {
                Ok(item) => r matches Ok(x) && item_view(x.0, x.1, x.2) == item,
                Err(e) => r matches Err(x) && x@ == e,
            },
            old(self).index() <= final(self).index(),
            r is Ok ==> old(self).index() < final(self).index(),
    {
        let (return_type, return_type_span) = self.expect_data_type()?;
        let (name, name_span) = self.expect_ident()?;
        self.expect_kind(&TokenKind::ParenL)?;
        let params = self.parse_named_parameters()?;
        let paren_span = self.expect_kind(&TokenKind::ParenR)?;
        self.expect_kind(&TokenKind::BraceL)?;
        if BuiltinFunction::is_builtin_name(name.as_str()) {
            return Err(CompileError::reserved_function_name_at(&name, name_span));
        }
        let body = self.parse_statements(&TokenKind::BraceR)?;
        self.expect_kind(&TokenKind::BraceR)?;
        let signiture = SpannedFunctionSigniture::new(return_type, params, return_type_span.join(paren_span));
        Ok((name, signiture, body))
    }

    /// Parses `import name` and its end of line.
    fn parse_import(&mut self) -> (r: Result<String, CompileError>)
        requires
            old(self).wf(),
        ensures
            final(self).wf(),
            final(self).same_input(old(self)),
            final(self).index() == p_import(old(self).tokens(), old(self).index()).1,
            match p_import(old(self).tokens(), old(self).index()).0 {
                Ok(item) => r matches Ok(name) && item == ItemView::Import(name),
                Err(e) => r matches Err(x) && x@ == e,
            },
            old(self).index() <= final(self).index(),
            r is Ok ==> old(self).index() < final(self).index(),
    {
        self.expect_kind(&TokenKind::Import)?;
        let (module_name, _) = self.expect_ident()?;
        self.expect_kind(&TokenKind::EOL)?;
        Ok(module_name)
    }

    /// Parses the items from the current token to the end, adding them to the tree.
    fn parse_top_level(&mut self) -> (r: Result<(), CompileError>)
        requires
            old(self).wf(),
        ensures
            final(self).wf(),
            final(self).tokens() == old(self).tokens(),
            final(self).file_id() == old(self).file_id(),
            match p_top(old(self).tokens(), old(self).file_id(), old(self).index()).0 {
                Ok(items) => r is Ok && final(self).ast()@ == add_items(old(self).ast()@, items),
                Err(e) => r matches Err(x) && x@ == e,
            },
        decreases old(self).tokens().len() - old(self).index(),
    {
        if self.index >= self.tokens.len() {
            return Ok(());
        }
        let tokens = self.tokens;
        let i = self.index;
        match &tokens[i].kind {
            TokenKind::EOL => {
                self.skip();
                self.parse_top_level()
            },
            TokenKind::DataType(_) => {
                let (name, signiture, body) = self.parse_function()?;
                let ghost item = item_view(name, signiture, body);
                let ghost before = self.ast@;
                self.ast.add_function(name, signiture, body);
                proof {
                    let after = self.ast@;
                    assert(after.signitures =~= before.signitures.push(sig_view(signiture)));
                    assert(after.bodies =~= before.bodies.push(statements_view(body@)));
                    assert(after.imports =~= before.imports);
                    assert(after == add_item(before, item));
                }
                let ghost j = self.index as int;
                let r = self.parse_top_level();
                proof {
                    if let Ok(rest) = p_top(tokens@, self.file_id, j).0 {
                        let items = seq![item] + rest;
                        assert(items[0] == item);
                        assert(items.drop_first() =~= rest);
                        assert(add_items(before, items) == add_items(add_item(before, item), rest));
                    }
                }
                r
            },
            TokenKind::Import => {
                let module_name = self.parse_import()?;
                let ghost item = ItemView::Import(module_name);
                let ghost before = self.ast@;
                let path = Path::single(module_name);
                self.ast.add_import(path);
                proof {
                    let after = self.ast@;
                    assert(after.signitures =~= before.signitures);
                    assert(after.bodies =~= before.bodies);
                    assert(after.imports =~= before.imports.push(seq![module_name@]));
                    assert(after == add_item(before, item));
                }
                let ghost j = self.index as int;
                let r = self.parse_top_level();
                proof {
                    if let Ok(rest) = p_top(tokens@, self.file_id, j).0 {
                        let items = seq![item] + rest;
                        assert(items[0] == item);
                        assert(items.drop_first() =~= rest);
                        assert(add_items(before, items) == add_items(add_item(before, item), rest));
                    }
                }
                r
            },
            _ => {
                self.skip();
                Err(CompileError::unexpected_token_at(tokens[i].kind.duplicate(), tokens[i].span))
            },
        }
    }

    /// Parses the whole input from the current token and gives the tree.
    pub fn parse(self) -> (r: Result<Ast, CompileError>)
        requires
            self.wf(),
        ensures
            match p_top(self.tokens(), self.file_id(), self.index()).0 {
                Ok(items) => r matches Ok(a) && a.wf() && a@ == add_items(self.ast()@, items),
                Err(e) => r matches Err(x) && x@ == e,
            },
    {
        let mut parser = self;
        parser.parse_top_level()?;
        Ok(parser.ast)
    }
}

} // verus!
