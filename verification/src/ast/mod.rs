mod binary_op;
mod builtin_function;
mod expr;
mod function_ast;
mod item;
mod path;
mod statement;
mod unary_op;
mod tree;

pub use binary_op::BinaryOp;
pub use builtin_function::{BuiltinFunction, BuiltinOutcome, spec_builtin_name, spec_builtin_named};
pub use expr::{Expr, ExprKind, ExprKindView, ExprView, expr_view, exprs_view, lemma_exprs_view_take};
pub use function_ast::{SpannedFunctionSigniture, SpannedParameter, spec_check_arguments, spec_check_args_from};
pub use item::Item;
pub use path::Path;
pub use statement::{Statement, StatementKind, StatementKindView, StatementView, statement_view, statements_view, lemma_statements_view_take};
pub use tree::{Ast, AstView, SigView, sig_view};
pub use unary_op::UnaryOp;
