//! The type checker: every function body of a tree, statement by statement,
//! with the types of variables in nested scopes.
use vstd::prelude::*;
use super::data_type_scope::{DataTypeScope, scopes_get};
use crate::ast::{
    Ast, AstView, SigView, BinaryOp, BuiltinFunction, Expr, ExprKind, ExprKindView, ExprView, SpannedFunctionSigniture,
    SpannedParameter, Statement, StatementKind, StatementKindView, StatementView, UnaryOp, exprs_view,
    spec_check_arguments, statements_view,
};
use crate::data_type::{DataType, spec_check_method_call, spec_matches_type};
use crate::diagnostics::Span;
use crate::errors::{
    CompileError, CompileErrorView, RuntimeError, spec_cannot_infer_type_at, spec_function_not_found_at,
    spec_module_not_found_at, spec_var_redeclaration_at, spec_variable_not_found_at, spec_wrong_type_at,
};
use crate::function::{InternalFunctionSigniture, spec_check_arg_types};
use crate::module::Module;
use crate::name_map::lookup;
use crate::value::{ValueView, computed_type, spec_binary, spec_unary, spec_value_type};

verus! {

/// Scopes of variable types, outermost first.
pub type Scopes = Seq<Seq<(Seq<char>, DataType)>>;

/// The signature of the function called `name` in a tree.
pub open spec fn ast_sig(ast: AstView, name: Seq<char>) -> Option<SigView> {
    match lookup(ast.entries, name) {
        Some(slot) => if (slot as int) < ast.signitures.len() {
            Some(ast.signitures[slot as int])
        } else {
            None
        },
        None => None,
    }
}

/// The first module called `name` among the dependencies.
pub open spec fn dep_module(deps: Seq<(String, Module)>, name: Seq<char>) -> Option<Module>
    decreases deps.len(),
{
    if deps.len() == 0 {
        None
    } else if deps[0].0@ == name {
        Some(deps[0].1)
    } else {
        dep_module(deps.drop_first(), name)
    }
}

/// The signature of the function called `name` in a compiled module.
pub open spec fn module_sig(m: Module, name: Seq<char>) -> Option<InternalFunctionSigniture> {
    match lookup(m.function_map().entries(), name) {
        Some(slot) => if (slot as int) < m.signitures().len() {
            Some(m.signitures()[slot as int])
        } else {
            None
        },
        None => None,
    }
}

/// Every dependency is a well-formed module.
pub open spec fn deps_wf(deps: Seq<(String, Module)>) -> bool {
    forall|i: int| 0 <= i < deps.len() ==> (#[trigger] deps[i]).1.wf()
}

/// The type of an arithmetic or ordering operator's result: both operands
/// `Int` (giving `int_result`) or both `Float` (giving `float_result`).
pub open spec fn numeric_type(lt: DataType, rt: DataType, span: Span, int_result: DataType, float_result: DataType) -> Result<DataType, CompileErrorView> {
    if lt == DataType::Int && rt == DataType::Int {
        Ok(int_result)
    } else if lt == DataType::Float && rt == DataType::Float {
        Ok(float_result)
    } else if lt == DataType::Int || lt == DataType::Float {
        Err(spec_wrong_type_at(lt, rt, span))
    } else if rt == DataType::Int || rt == DataType::Float {
        Err(spec_wrong_type_at(rt, lt, span))
    } else {
        Err(spec_wrong_type_at(DataType::Int, lt, span))
    }
}

/// The type of a binary operation on operands of types `lt` and `rt`.
pub open spec fn binary_type(op: BinaryOp, lt: DataType, rt: DataType, span: Span) -> Result<DataType, CompileErrorView> {
    match op {
        BinaryOp::Add | BinaryOp::Sub | BinaryOp::Mul | BinaryOp::Div | BinaryOp::Modulo =>
            numeric_type(lt, rt, span, DataType::Int, DataType::Float),
        BinaryOp::Less | BinaryOp::LessEqual | BinaryOp::Greater | BinaryOp::GreaterEqual =>
            numeric_type(lt, rt, span, DataType::Bool, DataType::Bool),
        BinaryOp::Equal | BinaryOp::NotEqual => Ok(DataType::Bool),
        BinaryOp::And | BinaryOp::Or => if lt != DataType::Bool {
            Err(spec_wrong_type_at(DataType::Bool, lt, span))
        } else if rt != DataType::Bool {
            Err(spec_wrong_type_at(DataType::Bool, rt, span))
        } else {
            Ok(DataType::Bool)
        },
    }
}

/// On two integers or two floats, a comparison (`<`, `<=`, `>`, `>=`, `==`,
/// `!=`) has type `bool`, and an arithmetic operator (`+`, `-`, `*`, `/`,
/// `%`) has the operands' type.
pub proof fn lemma_numeric_operator_types(op: BinaryOp, t: DataType, span: Span)
    requires
        t == DataType::Int || t == DataType::Float,
    ensures
        (op is Less || op is LessEqual || op is Greater || op is GreaterEqual || op is Equal || op is NotEqual)
            ==> binary_type(op, t, t, span) == Ok::<DataType, CompileErrorView>(DataType::Bool),
        (op is Add || op is Sub || op is Mul || op is Div || op is Modulo)
            ==> binary_type(op, t, t, span) == Ok::<DataType, CompileErrorView>(t),
{
}

/// The checker's type for `l op r` is the type of what evaluating it gives:
/// where the operands' types give `l op r` a type, applying `op` to values of
/// those types gives a value (or a floating-point operation) of that type,
/// or fails on a division by zero.
pub proof fn lemma_binary_type_sound(op: BinaryOp, a: ValueView, b: ValueView, span: Span)
    requires
        binary_type(op, spec_value_type(a), spec_value_type(b), span) is Ok,
    ensures
        match spec_binary(op, a, b) {
            Ok(c) => binary_type(op, spec_value_type(a), spec_value_type(b), span) == Ok::<DataType, CompileErrorView>(computed_type(c)),
            Err(e) => e == RuntimeError::DivisionByZero,
        },
{
}

/// Likewise for a prefix operator: where the checker gives `op v` a type,
/// applying `op` to a value of the operand's type gives one of that type.
pub proof fn lemma_unary_type_sound(op: UnaryOp, v: ValueView, span: Span)
    requires
        unary_type(op, spec_value_type(v), span) is Ok,
    ensures
        spec_unary(op, v) matches Ok(c)
            && unary_type(op, spec_value_type(v), span) == Ok::<DataType, CompileErrorView>(computed_type(c)),
{
}

/// The type of a unary operation on an operand of type `t`.
pub open spec fn unary_type(op: UnaryOp, t: DataType, span: Span) -> Result<DataType, CompileErrorView> {
    match op {
        UnaryOp::Not => if t != DataType::Bool {
            Err(spec_wrong_type_at(DataType::Bool, t, span))
        } else {
            Ok(DataType::Bool)
        },
        UnaryOp::Negate => if t == DataType::Int {
            Ok(DataType::Int)
        } else if t == DataType::Float {
            Ok(DataType::Float)
        } else {
            Err(spec_wrong_type_at(DataType::Int, t, span))
        },
    }
}

/// The types of a list of argument types, without their spans.
pub open spec fn types_of(args: Seq<(DataType, Span)>) -> Seq<DataType> {
    args.map_values(|a: (DataType, Span)| a.0)
}

/// The first type in `ts` that is not `Bool`.
pub open spec fn first_non_bool(ts: Seq<DataType>) -> Option<DataType>
    decreases ts.len(),
{
    if ts.len() == 0 {
        None
    } else if ts[0] != DataType::Bool {
        Some(ts[0])
    } else {
        first_non_bool(ts.drop_first())
    }
}

/// The type of a built-in call whose arguments have types `ts`.
pub open spec fn builtin_type(f: BuiltinFunction, ts: Seq<DataType>, span: Span) -> Result<DataType, CompileErrorView> {
    match f {
        BuiltinFunction::Print => Ok(DataType::Void),
        BuiltinFunction::Assert => match first_non_bool(ts) {
            Some(t) => Err(spec_wrong_type_at(DataType::Bool, t, span)),
            None => Ok(DataType::Void),
        },
        BuiltinFunction::Format => Ok(DataType::String),
    }
}

/// A failed check of a call into another module, located at the call.
pub open spec fn at_call<T>(r: Result<T, CompileErrorView>, span: Span) -> Result<T, CompileErrorView> {
    match r {
        Ok(x) => Ok(x),
        Err(e) => Err(CompileErrorView { span: Some(span), ..e }),
    }
}

/// The type of an expression, or the first error found in it (operands and
/// arguments are checked left to right).
pub open spec fn tc_expr(ast: AstView, deps: Seq<(String, Module)>, scopes: Scopes, e: ExprView) -> Result<DataType, CompileErrorView>
    decreases e,
{
    match e.kind {
        ExprKindView::Var(name) => match scopes_get(scopes, name@) {
            Some(t) => Ok(t),
            None => Err(spec_variable_not_found_at(name, e.span)),
        },
        ExprKindView::Literal(v) => Ok(spec_value_type(v@)),
        ExprKindView::FunctionCall { func_name, args } => match ast_sig(ast, func_name@) {
            None => Err(spec_function_not_found_at(func_name, e.span)),
            Some(sig) => match tc_args(ast, deps, scopes, args) {
                Err(x) => Err(x),
                Ok(ts) => match spec_check_arguments(sig.params, ts, e.span) {
                    Err(x) => Err(x),
                    Ok(_) => Ok(sig.return_type),
                },
            },
        },
        ExprKindView::ForeignFunctionCall { module_name, func_name, args } => match dep_module(deps, module_name@) {
            None => Err(spec_module_not_found_at(module_name, e.span)),
            Some(m) => match module_sig(m, func_name@) {
                None => Err(spec_function_not_found_at(func_name, e.span)),
                Some(sig) => match tc_args(ast, deps, scopes, args) {
                    Err(x) => Err(x),
                    Ok(ts) => match at_call(spec_check_arg_types(sig.params@, types_of(ts)), e.span) {
                        Err(x) => Err(x),
                        Ok(_) => Ok(sig.return_type),
                    },
                },
            },
        },
        ExprKindView::BuiltinFunctionCall { function, args } => match tc_args(ast, deps, scopes, args) {
            Err(x) => Err(x),
            Ok(ts) => builtin_type(function, types_of(ts), e.span),
        },
        ExprKindView::MethodCall { callee, method_name, args } => match tc_expr(ast, deps, scopes, *callee) {
            Err(x) => Err(x),
            Ok(ct) => match tc_args(ast, deps, scopes, args) {
                Err(x) => Err(x),
                Ok(ts) => spec_check_method_call(ct, method_name@, e.span, types_of(ts)),
            },
        },
        ExprKindView::BinaryOp(op, l, r) => match tc_expr(ast, deps, scopes, *l) {
            Err(x) => Err(x),
            Ok(lt) => match tc_expr(ast, deps, scopes, *r) {
                Err(x) => Err(x),
                Ok(rt) => binary_type(op, lt, rt, e.span),
            },
        },
        ExprKindView::UnaryOp(op, x) => match tc_expr(ast, deps, scopes, *x) {
            Err(err) => Err(err),
            Ok(t) => unary_type(op, t, x.span),
        },
    }
}

/// The types and spans of arguments, or the first error among them.
pub open spec fn tc_args(ast: AstView, deps: Seq<(String, Module)>, scopes: Scopes, args: Seq<ExprView>) -> Result<Seq<(DataType, Span)>, CompileErrorView>
    decreases args,
{
    if args.len() == 0 {
        Ok(Seq::empty())
    } else {
        match tc_args(ast, deps, scopes, args.drop_last()) {
            Err(x) => Err(x),
            Ok(ts) => match tc_expr(ast, deps, scopes, args.last()) {
                Err(x) => Err(x),
                Ok(t) => Ok(ts.push((t, args.last().span))),
            },
        }
    }
}

/// Scopes after declaring `name` with type `t` in the innermost scope; a
/// name that a scope already has is refused.
pub open spec fn declare(scopes: Scopes, name: String, t: DataType, span: Span) -> Result<Scopes, CompileErrorView> {
    if scopes_get(scopes, name@) is Some {
        Err(spec_var_redeclaration_at(name, span))
    } else {
        Ok(scopes.update(scopes.len() - 1, scopes.last().push((name@, t))))
    }
}

/// The scopes after checking a statement in a function returning `ret`, or
/// the first error. Blocks share the scope of their function.
pub open spec fn tc_stmt(ast: AstView, deps: Seq<(String, Module)>, scopes: Scopes, s: StatementView, ret: DataType) -> Result<Scopes, CompileErrorView>
    decreases s,
{
    match s.kind {
        StatementKindView::If { condition, if_block, else_block } => match tc_expr(ast, deps, scopes, condition) {
            Err(x) => Err(x),
            Ok(c) => if c != DataType::Bool {
                Err(spec_wrong_type_at(DataType::Bool, c, s.span))
            } else {
                match tc_stmts(ast, deps, scopes, if_block, ret) {
                    Err(x) => Err(x),
                    Ok(sc) => match else_block {
                        Some(b) => tc_stmts(ast, deps, sc, b, ret),
                        None => Ok(sc),
                    },
                }
            },
        },
        StatementKindView::VarDeclare { data_type, variable, value } => match tc_expr(ast, deps, scopes, value) {
            Err(x) => Err(x),
            Ok(et) => match data_type {
                Some(vt) => if !spec_matches_type(et, vt) {
                    Err(spec_wrong_type_at(vt, et, value.span))
                } else {
                    declare(scopes, variable, vt, s.span)
                },
                None => if et == (DataType::List { item_type: None }) {
                    Err(spec_cannot_infer_type_at(variable, value.span))
                } else {
                    declare(scopes, variable, et, s.span)
                },
            },
        },
        StatementKindView::VarAssign { variable, value } => match scopes_get(scopes, variable@) {
            None => Err(spec_variable_not_found_at(variable, s.span)),
            Some(vt) => match tc_expr(ast, deps, scopes, value) {
                Err(x) => Err(x),
                Ok(et) => if !spec_matches_type(et, vt) {
                    Err(spec_wrong_type_at(vt, et, s.span))
                } else {
                    Ok(scopes)
                },
            },
        },
        StatementKindView::While { condition, block } => match tc_expr(ast, deps, scopes, condition) {
            Err(x) => Err(x),
            Ok(c) => if c != DataType::Bool {
                Err(spec_wrong_type_at(DataType::Bool, c, s.span))
            } else {
                tc_stmts(ast, deps, scopes, block, ret)
            },
        },
        StatementKindView::Expr(e) => match tc_expr(ast, deps, scopes, e) {
            Err(x) => Err(x),
            Ok(_) => Ok(scopes),
        },
        StatementKindView::Return(e) => match tc_expr(ast, deps, scopes, e) {
            Err(x) => Err(x),
            Ok(t) => if t != ret {
                Err(spec_wrong_type_at(ret, t, s.span))
            } else {
                Ok(scopes)
            },
        },
    }
}

/// The scopes after checking statements in order, or the first error.
pub open spec fn tc_stmts(ast: AstView, deps: Seq<(String, Module)>, scopes: Scopes, ss: Seq<StatementView>, ret: DataType) -> Result<Scopes, CompileErrorView>
    decreases ss,
{
    if ss.len() == 0 {
        Ok(scopes)
    } else {
        match tc_stmts(ast, deps, scopes, ss.drop_last(), ret) {
            Err(x) => Err(x),
            Ok(sc) => tc_stmt(ast, deps, sc, ss.last(), ret),
        }
    }
}

/// The scopes as a failing statement leaves them: a statement fails before
/// it declares anything, except that a block shares its function's scope and
/// keeps what its statements before the failing one declared.
pub open spec fn tc_stmt_err_scopes(ast: AstView, deps: Seq<(String, Module)>, scopes: Scopes, s: StatementView, ret: DataType) -> Scopes
    decreases s,
{
    match s.kind {
        StatementKindView::If { condition, if_block, else_block } => match tc_expr(ast, deps, scopes, condition) {
            Ok(c) => if c != DataType::Bool {
                scopes
            } else {
                match tc_stmts(ast, deps, scopes, if_block, ret) {
                    Err(_) => tc_stmts_err_scopes(ast, deps, scopes, if_block, ret),
                    Ok(sc) => match else_block {
                        Some(b) => tc_stmts_err_scopes(ast, deps, sc, b, ret),
                        None => sc,
                    },
                }
            },
            Err(_) => scopes,
        },
        StatementKindView::While { condition, block } => match tc_expr(ast, deps, scopes, condition) {
            Ok(c) => if c != DataType::Bool {
                scopes
            } else {
                tc_stmts_err_scopes(ast, deps, scopes, block, ret)
            },
            Err(_) => scopes,
        },
        _ => scopes,
    }
}

/// The scopes as failing statements leave them: those the statements before
/// the failing one left, as the failing one leaves them.
pub open spec fn tc_stmts_err_scopes(ast: AstView, deps: Seq<(String, Module)>, scopes: Scopes, ss: Seq<StatementView>, ret: DataType) -> Scopes
    decreases ss,
{
    if ss.len() == 0 {
        scopes
    } else {
        match tc_stmts(ast, deps, scopes, ss.drop_last(), ret) {
            Err(_) => tc_stmts_err_scopes(ast, deps, scopes, ss.drop_last(), ret),
            Ok(sc) => tc_stmt_err_scopes(ast, deps, sc, ss.last(), ret),
        }
    }
}

/// The scopes after declaring the parameters in order, or the first error.
pub open spec fn tc_params(scopes: Scopes, ps: Seq<SpannedParameter>) -> Result<Scopes, CompileErrorView>
    decreases ps.len(),
{
    if ps.len() == 0 {
        Ok(scopes)
    } else {
        match tc_params(scopes, ps.drop_last()) {
            Err(x) => Err(x),
            Ok(sc) => declare(sc, ps.last().name, ps.last().data_type, ps.last().span),
        }
    }
}

/// Checks the function in `slot`: its parameters and then its body, in a
/// new scope that is left afterwards.
pub open spec fn tc_function(ast: AstView, deps: Seq<(String, Module)>, scopes: Scopes, slot: int) -> Result<Scopes, CompileErrorView> {
    let sig = ast.signitures[slot];
    match tc_params(scopes.push(Seq::empty()), sig.params) {
        Err(x) => Err(x),
        Ok(sc) => match tc_stmts(ast, deps, sc, ast.bodies[slot], sig.return_type) {
            Err(x) => Err(x),
            Ok(sc2) => Ok(sc2.drop_last()),
        },
    }
}

/// Checks the functions in slots `slot` up to `count`, in order.
pub open spec fn tc_functions(ast: AstView, deps: Seq<(String, Module)>, scopes: Scopes, slot: int, count: int) -> Result<Scopes, CompileErrorView>
    decreases count - slot,
{
    if slot >= count {
        Ok(scopes)
    } else {
        match tc_function(ast, deps, scopes, slot) {
            Err(x) => Err(x),
            Ok(sc) => tc_functions(ast, deps, sc, slot + 1, count),
        }
    }
}

/// Declaring a variable changes only the innermost scope.
proof fn lemma_declare_outer(scopes: Scopes, name: String, t: DataType, span: Span)
    requires
        scopes.len() > 0,
    ensures
        declare(scopes, name, t, span) matches Ok(sc) ==> sc.len() == scopes.len() && sc.drop_last() == scopes.drop_last(),
{
    if let Ok(sc) = declare(scopes, name, t, span) {
        assert(sc.drop_last() =~= scopes.drop_last());
    }
}

/// Checking statements changes only the innermost scope.
proof fn lemma_stmts_outer(ast: AstView, deps: Seq<(String, Module)>, scopes: Scopes, ss: Seq<StatementView>, ret: DataType)
    requires
        scopes.len() > 0,
    ensures
        tc_stmts(ast, deps, scopes, ss, ret) matches Ok(sc) ==> sc.len() == scopes.len() && sc.drop_last() == scopes.drop_last(),
    decreases ss,
{
    if ss.len() > 0 {
        lemma_stmts_outer(ast, deps, scopes, ss.drop_last(), ret);
        if let Ok(sc) = tc_stmts(ast, deps, scopes, ss.drop_last(), ret) {
            lemma_stmt_outer(ast, deps, sc, ss.last(), ret);
        }
    }
}

proof fn lemma_stmt_outer(ast: AstView, deps: Seq<(String, Module)>, scopes: Scopes, s: StatementView, ret: DataType)
    requires
        scopes.len() > 0,
    ensures
        tc_stmt(ast, deps, scopes, s, ret) matches Ok(sc) ==> sc.len() == scopes.len() && sc.drop_last() == scopes.drop_last(),
    decreases s,
{
    match s.kind {
        StatementKindView::If { condition, if_block, else_block } => {
            lemma_stmts_outer(ast, deps, scopes, if_block, ret);
            if let Ok(sc) = tc_stmts(ast, deps, scopes, if_block, ret) {
                if let Some(b) = else_block {
                    lemma_stmts_outer(ast, deps, sc, b, ret);
                }
            }
        },
        StatementKindView::VarDeclare { data_type, variable, value } => {
            match data_type {
                Some(vt) => lemma_declare_outer(scopes, variable, vt, s.span),
                None => {
                    if let Ok(et) = tc_expr(ast, deps, scopes, value) {
                        lemma_declare_outer(scopes, variable, et, s.span);
                    }
                },
            }
        },
        StatementKindView::While { condition, block } => {
            lemma_stmts_outer(ast, deps, scopes, block, ret);
        },
        _ => {},
    }
}

proof fn lemma_params_outer(scopes: Scopes, ps: Seq<SpannedParameter>)
    requires
        scopes.len() > 0,
    ensures
        tc_params(scopes, ps) matches Ok(sc) ==> sc.len() == scopes.len() && sc.drop_last() == scopes.drop_last(),
    decreases ps.len(),
{
    if ps.len() > 0 {
        lemma_params_outer(scopes, ps.drop_last());
        if let Ok(sc) = tc_params(scopes, ps.drop_last()) {
            lemma_declare_outer(sc, ps.last().name, ps.last().data_type, ps.last().span);
        }
    }
}

/// A function's parameters and variables live in a scope of its own: once it
/// is checked, the scopes are as they were before.
pub proof fn lemma_function_scopes_restored(ast: AstView, deps: Seq<(String, Module)>, scopes: Scopes, slot: int)
    ensures
        tc_function(ast, deps, scopes, slot) matches Ok(sc) ==> sc == scopes,
{
    let sig = ast.signitures[slot];
    let inner = scopes.push(Seq::empty());
    lemma_params_outer(inner, sig.params);
    if let Ok(pc) = tc_params(inner, sig.params) {
        lemma_stmts_outer(ast, deps, pc, ast.bodies[slot], sig.return_type);
        if let Ok(sc2) = tc_stmts(ast, deps, pc, ast.bodies[slot], sig.return_type) {
            assert(inner.drop_last() =~= scopes);
        }
    }
}

/// Once a prefix of the arguments fails, the whole list fails the same way.
proof fn lemma_args_prefix_err(ast: AstView, deps: Seq<(String, Module)>, scopes: Scopes, args: Seq<ExprView>, k: int)
    requires
        0 <= k <= args.len(),
        tc_args(ast, deps, scopes, args.take(k)) is Err,
    ensures
        tc_args(ast, deps, scopes, args) == tc_args(ast, deps, scopes, args.take(k)),
    decreases args.len(),
{
    if args.len() == k {
        assert(args.take(k) =~= args);
    } else {
        assert(args.drop_last().take(k) =~= args.take(k));
        lemma_args_prefix_err(ast, deps, scopes, args.drop_last(), k);
    }
}

/// Once a prefix of the statements fails, the whole list fails the same way.
proof fn lemma_stmts_prefix_err(ast: AstView, deps: Seq<(String, Module)>, scopes: Scopes, ss: Seq<StatementView>, ret: DataType, k: int)
    requires
        0 <= k <= ss.len(),
        tc_stmts(ast, deps, scopes, ss.take(k), ret) is Err,
    ensures
        tc_stmts(ast, deps, scopes, ss, ret) == tc_stmts(ast, deps, scopes, ss.take(k), ret),
    decreases ss.len(),
{
    if ss.len() == k {
        assert(ss.take(k) =~= ss);
    } else {
        assert(ss.drop_last().take(k) =~= ss.take(k));
        lemma_stmts_prefix_err(ast, deps, scopes, ss.drop_last(), ret, k);
    }
}

/// Once a prefix of the statements fails, the whole list leaves the scopes
/// as the prefix does.
proof fn lemma_stmts_err_scopes_prefix(ast: AstView, deps: Seq<(String, Module)>, scopes: Scopes, ss: Seq<StatementView>, ret: DataType, k: int)
    requires
        0 <= k <= ss.len(),
        tc_stmts(ast, deps, scopes, ss.take(k), ret) is Err,
    ensures
        tc_stmts_err_scopes(ast, deps, scopes, ss, ret) == tc_stmts_err_scopes(ast, deps, scopes, ss.take(k), ret),
    decreases ss.len(),
{
    if ss.len() == k {
        assert(ss.take(k) =~= ss);
    } else {
        assert(ss.drop_last().take(k) =~= ss.take(k));
        lemma_stmts_prefix_err(ast, deps, scopes, ss.drop_last(), ret, k);
        lemma_stmts_err_scopes_prefix(ast, deps, scopes, ss.drop_last(), ret, k);
    }
}

/// Once a prefix of the parameters fails, the whole list fails the same way.
proof fn lemma_params_prefix_err(scopes: Scopes, ps: Seq<SpannedParameter>, k: int)
    requires
        0 <= k <= ps.len(),
        tc_params(scopes, ps.take(k)) is Err,
    ensures
        tc_params(scopes, ps) == tc_params(scopes, ps.take(k)),
    decreases ps.len(),
{
    if ps.len() == k {
        assert(ps.take(k) =~= ps);
    } else {
        assert(ps.drop_last().take(k) =~= ps.take(k));
        lemma_params_prefix_err(scopes, ps.drop_last(), k);
    }
}

/// The module that `dep_module` finds is one of the dependencies, so it is well formed.
pub(crate) proof fn lemma_dep_module_wf(deps: Seq<(String, Module)>, name: Seq<char>)
    requires
        deps_wf(deps),
    ensures
        dep_module(deps, name) matches Some(m) ==> m.wf(),
    decreases deps.len(),
{
    if deps.len() > 0 && deps[0].0@ != name {
        assert(deps_wf(deps.drop_first())) by {
            assert forall|i: int| 0 <= i < deps.drop_first().len() implies (#[trigger] deps.drop_first()[i]).1.wf() by {
                assert(deps.drop_first()[i] == deps[i + 1]);
            }
        }
        lemma_dep_module_wf(deps.drop_first(), name);
    }
}

/// The first module called `name` among the dependencies.
pub(crate) fn find_dependency<'m>(deps: &'m [(String, Module)], name: &str) -> (r: Option<&'m Module>)
    ensures
        match dep_module(deps@, name@) {
            Some(m) => r matches Some(x) && *x == m,
            None => r is None,
        },
{
    let mut i: usize = 0;
    assert(deps@.skip(0) =~= deps@);
    while i < deps.len()
        invariant
            i <= deps@.len(),
            dep_module(deps@, name@) == dep_module(deps@.skip(i as int), name@),
        decreases deps@.len() - i,
    {
        assert(deps@.skip(i as int)[0] == deps@[i as int]);
        if crate::text::str_equal(deps[i].0.as_str(), name) {
            return Some(&deps[i].1);
        }
        assert(deps@.skip(i as int).drop_first() =~= deps@.skip(i + 1));
        i = i + 1;
    }
    None
}

/// The types of the arguments, without their spans.
fn arg_types_only(args: &Vec<(DataType, Span)>) -> (v: Vec<DataType>)
    ensures
        v@ == types_of(args@),
{
    let mut v: Vec<DataType> = Vec::new();
    let mut i: usize = 0;
    while i < args.len()
        invariant
            i <= args@.len(),
            v@ == types_of(args@).take(i as int),
        decreases args@.len() - i,
    {
        v.push(args[i].0.duplicate());
        i = i + 1;
        assert(v@ =~= types_of(args@).take(i as int));
    }
    assert(types_of(args@).take(i as int) =~= types_of(args@));
    v
}

fn numeric_result(lt: DataType, rt: DataType, span: Span, int_result: DataType, float_result: DataType) -> (r: Result<DataType, CompileError>)
    ensures
        crate::errors::view_result(r) == numeric_type(lt, rt, span, int_result, float_result),
{
    match (&lt, &rt) {
        (DataType::Int, DataType::Int) => Ok(int_result),
        (DataType::Float, DataType::Float) => Ok(float_result),
        (DataType::Int, _) | (DataType::Float, _) => Err(CompileError::wrong_type_at(lt, rt, span)),
        (_, DataType::Int) | (_, DataType::Float) => Err(CompileError::wrong_type_at(rt, lt, span)),
        _ => Err(CompileError::wrong_type_at(DataType::Int, lt, span)),
    }
}

/// The first type among `types` that is not `Bool`.
fn find_non_bool(types: &Vec<DataType>) -> (r: Option<DataType>)
    ensures
        r == first_non_bool(types@),
{
    let mut i: usize = 0;
    assert(types@.skip(0) =~= types@);
    while i < types.len()
        invariant
            i <= types@.len(),
            first_non_bool(types@) == first_non_bool(types@.skip(i as int)),
        decreases types@.len() - i,
    {
        assert(types@.skip(i as int)[0] == types@[i as int]);
        if !types[i].is_bool() {
            return Some(types[i].duplicate());
        }
        assert(types@.skip(i as int).drop_first() =~= types@.skip(i + 1));
        i = i + 1;
    }
    assert(types@.skip(i as int).len() == 0);
    None
}

/// Checks the types of a tree's function bodies against their signatures.
pub struct TypeChecker<'a> {
    ast: &'a Ast,
    dependencies: &'a [(String, Module)],
    scope: DataTypeScope,
}

impl<'a> TypeChecker<'a> {
    pub closed spec fn ast(&self) -> Ast {
        *self.ast
    }

    pub closed spec fn deps(&self) -> Seq<(String, Module)> {
        self.dependencies@
    }

    pub closed spec fn scopes(&self) -> Scopes {
        self.scope.scopes()
    }

    /// What the checker can rely on: a well-formed tree and dependencies.
    pub open spec fn inputs_wf(&self) -> bool {
        &&& self.ast().wf()
        &&& deps_wf(self.deps())
    }

    pub fn new(ast: &'a Ast, dependencies: &'a [(String, Module)]) -> (t: Self)
        ensures
            t.ast() == *ast,
            t.deps() == dependencies@,
            t.scopes() == Seq::<Seq<(Seq<char>, DataType)>>::empty(),
    {
        Self { ast, dependencies, scope: DataTypeScope::new() }
    }

    /// Checks every function of the tree, in slot order; the first error is returned.
    pub fn check(self) -> (r: Result<(), CompileError>)
        requires
            self.inputs_wf(),
            self.ast().function_map().entries().len() <= self.ast().signitures().len(),
        ensures
            match tc_functions(self.ast()@, self.deps(), self.scopes(), 0, self.ast()@.entries.len() as u32 as int) {
                Ok(_) => r is Ok,
                Err(e) => r matches Err(x) && x@ == e,
            },
    {
        let mut checker = self;
        checker.check_functions()
    }

    fn check_functions(&mut self) -> (r: Result<(), CompileError>)
        requires
            old(self).inputs_wf(),
            old(self).ast().function_map().entries().len() <= old(self).ast().signitures().len(),
        ensures
            match tc_functions(old(self).ast()@, old(self).deps(), old(self).scopes(), 0, old(self).ast()@.entries.len() as u32 as int) {
                Ok(_) => r is Ok,
                Err(e) => r matches Err(x) && x@ == e,
            },
    {
        let count = self.ast.function_count();
        let ghost ast = self.ast()@;
        let ghost deps = self.deps();
        let ghost s0 = self.scopes();
        let mut slot: u32 = 0;
        let mut failure: Option<CompileError> = None;
        while slot < count
            invariant_except_break
                failure is None,
                self.ast()@ == ast,
                self.ast() == old(self).ast(),
                self.deps() == deps,
                self.inputs_wf(),
                count as int <= ast.signitures.len(),
                slot <= count,
                tc_functions(ast, deps, s0, 0, count as int) == tc_functions(ast, deps, self.scopes(), slot as int, count as int),
            ensures
                failure matches Some(e) ==> tc_functions(ast, deps, s0, 0, count as int) == Err::<Scopes, CompileErrorView>(e@),
                failure is None ==> tc_functions(ast, deps, s0, 0, count as int) is Ok,
            decreases count - slot,
        {
            match self.check_function(slot) {
                Ok(()) => {
                    slot = slot + 1;
                },
                Err(e) => {
                    failure = Some(e);
                    break;
                },
            }
        }
        match failure {
            Some(e) => Err(e),
            None => Ok(()),
        }
    }

    /// Checks the function in `slot`: its parameters go into a new scope,
    /// then its body is checked against its return type.
    fn check_function(&mut self, slot: u32) -> (r: Result<(), CompileError>)
        requires
            old(self).inputs_wf(),
            (slot as int) < old(self).ast().signitures().len(),
        ensures
            final(self).ast() == old(self).ast(),
            final(self).deps() == old(self).deps(),
            match tc_function(old(self).ast()@, old(self).deps(), old(self).scopes(), slot as int) {
                Ok(sc) => r is Ok && final(self).scopes() == sc,
                Err(e) => r matches Err(x) && x@ == e,
            },
    {
        let ast = self.ast;
        let sig = ast.get_function_signiture_by_slot(slot).unwrap();
        let ghost s0 = self.scopes().push(Seq::empty());
        self.scope.enter();
        let mut k: usize = 0;
        let mut failure: Option<CompileError> = None;
        assert(sig.params@.take(0) =~= Seq::<SpannedParameter>::empty());
        while k < sig.params.len()
            invariant_except_break
                failure is None,
                self.ast == ast,
                self.deps() == old(self).deps(),
                k <= sig.params@.len(),
                tc_params(s0, sig.params@.take(k as int)) == Ok::<Scopes, CompileErrorView>(self.scopes()),
                self.scopes().len() == s0.len(),
                s0.len() > 0,
                k == sig.params@.len() ==> sig.params@.take(k as int) == sig.params@,
            ensures
                self.ast == ast,
                self.deps() == old(self).deps(),
                failure matches Some(e) ==> tc_params(s0, sig.params@) == Err::<Scopes, CompileErrorView>(e@),
                failure is None ==> tc_params(s0, sig.params@) == Ok::<Scopes, CompileErrorView>(self.scopes()),
                self.scopes().len() == s0.len(),
            decreases sig.params@.len() - k,
        {
            let p = &sig.params[k];
            proof {
                assert(sig.params@.take(k + 1).drop_last() =~= sig.params@.take(k as int));
                assert(sig.params@.take(k + 1).last() == sig.params@[k as int]);
                if k + 1 == sig.params@.len() {
                    assert(sig.params@.take(k + 1) =~= sig.params@);
                }
            }
            match self.scope.insert_new(p.name.clone(), p.data_type.duplicate(), p.span) {
                Ok(()) => {
                    k = k + 1;
                },
                Err(e) => {
                    proof {
                        lemma_params_prefix_err(s0, sig.params@, k + 1);
                    }
                    failure = Some(e);
                    break;
                },
            }
        }
        if let Some(e) = failure {
            return Err(e);
        }
        let body = ast.get_function_body_by_slot(slot).unwrap();
        self.check_statements(body, &sig.return_type)?;
        self.scope.exit();
        Ok(())
    }

    /// Checks statements in order; the first error is returned.
    fn check_statements(&mut self, statements: &[Statement], return_type: &DataType) -> (r: Result<(), CompileError>)
        requires
            old(self).inputs_wf(),
            old(self).scopes().len() > 0,
        ensures
            final(self).ast() == old(self).ast(),
            final(self).deps() == old(self).deps(),
            match tc_stmts(old(self).ast()@, old(self).deps(), old(self).scopes(), statements_view(statements@), *return_type) {
                Ok(sc) => r is Ok && final(self).scopes() == sc,
                Err(e) => r matches Err(x) && x@ == e,
            },
            r is Ok ==> final(self).scopes().len() == old(self).scopes().len(),
            r is Err ==> final(self).scopes() == tc_stmts_err_scopes(
                old(self).ast()@,
                old(self).deps(),
                old(self).scopes(),
                statements_view(statements@),
                *return_type,
            ),
        decreases statements@, 0nat,
    {
        let ghost ast = self.ast()@;
        let ghost deps = self.deps();
        let ghost s0 = self.scopes();
        let ghost all = statements_view(statements@);
        let mut i: usize = 0;
        let mut failure: Option<CompileError> = None;
        assert(statements@.take(0) =~= Seq::<Statement>::empty());
        while i < statements.len()
            invariant_except_break
                failure is None,
                self.ast()@ == ast,
                self.ast() == old(self).ast(),
                self.deps() == deps,
                self.inputs_wf(),
                i <= statements@.len(),
                tc_stmts(ast, deps, s0, statements_view(statements@.take(i as int)), *return_type) == Ok::<Scopes, CompileErrorView>(self.scopes()),
                self.scopes().len() == s0.len(),
                s0.len() > 0,
                all == statements_view(statements@),
                i == statements@.len() ==> statements@.take(i as int) == statements@,
            ensures
                self.ast()@ == ast,
                self.ast() == old(self).ast(),
                self.deps() == deps,
                failure matches Some(e) ==> tc_stmts(ast, deps, s0, all, *return_type) == Err::<Scopes, CompileErrorView>(e@),
                failure is Some ==> self.scopes() == tc_stmts_err_scopes(ast, deps, s0, all, *return_type),
                failure is None ==> tc_stmts(ast, deps, s0, all, *return_type) == Ok::<Scopes, CompileErrorView>(self.scopes())
                    && self.scopes().len() == s0.len(),
            decreases statements@.len() - i,
        {
            proof {
                let t = statements@.take(i + 1);
                assert(t.drop_last() =~= statements@.take(i as int));
                assert(statements_view(t).drop_last() =~= statements_view(statements@.take(i as int)));
                assert(statements_view(t).last() == statements@[i as int]@);
                if i + 1 == statements@.len() {
                    assert(t =~= statements@);
                }
            }
            let ghost before = self.scopes();
            match self.check_statement(&statements[i], return_type) {
                Ok(()) => {
                    i = i + 1;
                },
                Err(e) => {
                    proof {
                        crate::ast::lemma_statements_view_take(statements@, i + 1);
                        lemma_stmts_prefix_err(ast, deps, s0, all, *return_type, i + 1);
                        lemma_stmts_err_scopes_prefix(ast, deps, s0, all, *return_type, i + 1);
                        let t = statements_view(statements@.take(i + 1));
                        assert(t.drop_last() =~= statements_view(statements@.take(i as int)));
                        assert(tc_stmts_err_scopes(ast, deps, s0, t, *return_type) == tc_stmt_err_scopes(
                            ast,
                            deps,
                            before,
                            statements@[i as int]@,
                            *return_type,
                        ));
                    }
                    failure = Some(e);
                    break;
                },
            }
        }
        match failure {
            Some(e) => Err(e),
            None => Ok(()),
        }
    }

    /// Checks one statement; declarations add to the innermost scope.
    fn check_statement(&mut self, statement: &Statement, return_type: &DataType) -> (r: Result<(), CompileError>)
        requires
            old(self).inputs_wf(),
            old(self).scopes().len() > 0,
        ensures
            final(self).ast() == old(self).ast(),
            final(self).deps() == old(self).deps(),
            match tc_stmt(old(self).ast()@, old(self).deps(), old(self).scopes(), statement@, *return_type) {
                Ok(sc) => r is Ok && final(self).scopes() == sc,
                Err(e) => r matches Err(x) && x@ == e,
            },
            r is Ok ==> final(self).scopes().len() == old(self).scopes().len(),
            r is Err ==> final(self).scopes() == tc_stmt_err_scopes(
                old(self).ast()@,
                old(self).deps(),
                old(self).scopes(),
                statement@,
                *return_type,
            ),
        decreases *statement, 1nat,
    {
        match &statement.kind {
            StatementKind::If { condition, if_block, else_block } => {
                let cond = self.check_expr(condition)?;
                if !cond.is_bool() {
                    return Err(CompileError::wrong_type_at(DataType::Bool, cond, statement.span));
                }
                self.check_statements(if_block.as_slice(), return_type)?;
                if let Some(else_stmts) = else_block {
                    self.check_statements(else_stmts.as_slice(), return_type)?;
                }
                Ok(())
            },
            StatementKind::VarDeclare { data_type: var_type, variable, value } => {
                let expr_type = self.check_expr(value)?;
                let data_type = match var_type {
                    Some(vt) => {
                        if !expr_type.matches_type(vt) {
                            return Err(CompileError::wrong_type_at(vt.duplicate(), expr_type, value.span));
                        }
                        vt.duplicate()
                    },
                    None => {
                        if matches!(expr_type, DataType::List { item_type: None }) {
                            return Err(CompileError::cannot_infer_type_at(variable, value.span));
                        }
                        expr_type
                    },
                };
                self.scope.insert_new(variable.clone(), data_type, statement.span)
            },
            StatementKind::VarAssign { variable, value } => {
                let var_type = match self.scope.get(variable.as_str()) {
                    Some(t) => t.duplicate(),
                    None => {
                        return Err(CompileError::variable_not_found_at(variable, statement.span));
                    },
                };
                let expr_type = self.check_expr(value)?;
                if !expr_type.matches_type(&var_type) {
                    return Err(CompileError::wrong_type_at(var_type, expr_type, statement.span));
                }
                Ok(())
            },
            StatementKind::While { condition, block } => {
                let cond = self.check_expr(condition)?;
                if !cond.is_bool() {
                    return Err(CompileError::wrong_type_at(DataType::Bool, cond, statement.span));
                }
                self.check_statements(block.as_slice(), return_type)
            },
            StatementKind::Expr(expr) => {
                self.check_expr(expr)?;
                Ok(())
            },
            StatementKind::Return(expr) => {
                let expr_type = self.check_expr(expr)?;
                if !expr_type.equals(return_type) {
                    return Err(CompileError::wrong_type_at(return_type.duplicate(), expr_type, statement.span));
                }
                Ok(())
            },
        }
    }

    /// The type of an expression; the first error found in it otherwise.
    fn check_expr(&self, expr: &Expr) -> (r: Result<DataType, CompileError>)
        requires
            self.inputs_wf(),
        ensures
            crate::errors::view_result(r) == tc_expr(self.ast()@, self.deps(), self.scopes(), expr@),
        decreases *expr, 1nat,
    {
        match &expr.kind {
            ExprKind::Var(ident) => match self.scope.get(ident.as_str()) {
                Some(data_type) => Ok(data_type.duplicate()),
                None => Err(CompileError::variable_not_found_at(ident, expr.span)),
            },
            ExprKind::Literal(lit) => Ok(lit.get_type()),
            ExprKind::FunctionCall { func_name, args } => self.check_call_expr(expr, func_name, args),
            ExprKind::ForeignFunctionCall { module_name, func_name, args } =>
                self.check_foreign_call_expr(expr, module_name, func_name, args),
            ExprKind::BuiltinFunctionCall { function, args } => self.check_builtin_call_expr(expr, *function, args),
            ExprKind::MethodCall { callee, method_name, args } =>
                self.check_method_call_expr(expr, callee, method_name, args),
            ExprKind::BinaryOp(op, lhs, rhs) => self.check_binary_op_expr(expr, *op, lhs, rhs),
            ExprKind::UnaryOp(op, inner) => self.check_unary_op_expr(expr, inner, *op),
        }
    }

    /// The types and spans of the arguments, in order; the first error otherwise.
    fn check_args(&self, args: &Vec<Expr>) -> (r: Result<Vec<(DataType, Span)>, CompileError>)
        requires
            self.inputs_wf(),
        ensures
            match tc_args(self.ast()@, self.deps(), self.scopes(), exprs_view(args@)) {
                Ok(ts) => r matches Ok(v) && v@ == ts,
                Err(e) => r matches Err(x) && x@ == e,
            },
        decreases args@, 2nat,
    {
        let mut out: Vec<(DataType, Span)> = Vec::new();
        let mut i: usize = 0;
        assert(args@.take(0) =~= Seq::<Expr>::empty());
        while i < args.len()
            invariant
                self.inputs_wf(),
                i <= args@.len(),
                tc_args(self.ast()@, self.deps(), self.scopes(), exprs_view(args@.take(i as int))) == Ok::<Seq<(DataType, Span)>, CompileErrorView>(out@),
            decreases args@.len() - i,
        {
            proof {
                let t = args@.take(i + 1);
                assert(t.drop_last() =~= args@.take(i as int));
                assert(exprs_view(t).drop_last() =~= exprs_view(args@.take(i as int)));
                assert(exprs_view(t).last() == args@[i as int]@);
            }
            match self.check_expr(&args[i]) {
                Ok(t) => {
                    out.push((t, args[i].span));
                    i = i + 1;
                },
                Err(e) => {
                    proof {
                        crate::ast::lemma_exprs_view_take(args@, i + 1);
                        lemma_args_prefix_err(self.ast()@, self.deps(), self.scopes(), exprs_view(args@), i + 1);
                    }
                    return Err(e);
                },
            }
        }
        assert(args@.take(i as int) =~= args@);
        Ok(out)
    }

    fn check_call_expr(&self, expr: &Expr, func_name: &String, args: &Vec<Expr>) -> (r: Result<DataType, CompileError>)
        requires
            self.inputs_wf(),
            expr.kind == (ExprKind::FunctionCall { func_name: *func_name, args: *args }),
        ensures
            crate::errors::view_result(r) == tc_expr(self.ast()@, self.deps(), self.scopes(), expr@),
        decreases *expr, 0nat,
    {
        let signiture = match self.ast.get_function_signiture(func_name.as_str()) {
            Some(s) => s,
            None => {
                return Err(CompileError::function_not_found_at(func_name, expr.span));
            },
        };
        let arg_types = self.check_args(args)?;
        signiture.check_argument_types(arg_types.as_slice(), expr.span)?;
        Ok(signiture.return_type.duplicate())
    }

    fn check_foreign_call_expr(&self, expr: &Expr, module_name: &String, func_name: &String, args: &Vec<Expr>) -> (r: Result<DataType, CompileError>)
        requires
            self.inputs_wf(),
            expr.kind == (ExprKind::ForeignFunctionCall { module_name: *module_name, func_name: *func_name, args: *args }),
        ensures
            crate::errors::view_result(r) == tc_expr(self.ast()@, self.deps(), self.scopes(), expr@),
        decreases *expr, 0nat,
    {
        let module = match find_dependency(self.dependencies, module_name.as_str()) {
            Some(m) => m,
            None => {
                return Err(CompileError::module_not_found_at(module_name, expr.span));
            },
        };
        proof {
            let deps = self.deps();
            assert forall|i: int| 0 <= i < deps.len() implies deps[i].1.wf() by {}
            lemma_dep_module_wf(deps, module_name@);
        }
        let signiture = match module.get_function_signiture(func_name.as_str()) {
            Some(s) => s,
            None => {
                return Err(CompileError::function_not_found_at(func_name, expr.span));
            },
        };
        let arg_types = self.check_args(args)?;
        let types = arg_types_only(&arg_types);
        match signiture.check_argument_types(types.as_slice()) {
            Ok(()) => Ok(signiture.return_type.duplicate()),
            Err(e) => Err(e.with_span(expr.span)),
        }
    }

    fn check_builtin_call_expr(&self, expr: &Expr, function: BuiltinFunction, args: &Vec<Expr>) -> (r: Result<DataType, CompileError>)
        requires
            self.inputs_wf(),
            expr.kind == (ExprKind::BuiltinFunctionCall { function, args: *args }),
        ensures
            crate::errors::view_result(r) == tc_expr(self.ast()@, self.deps(), self.scopes(), expr@),
        decreases *expr, 0nat,
    {
        let arg_types = self.check_args(args)?;
        let types = arg_types_only(&arg_types);
        match function {
            BuiltinFunction::Print => Ok(DataType::Void),
            BuiltinFunction::Assert => match find_non_bool(&types) {
                Some(t) => Err(CompileError::wrong_type_at(DataType::Bool, t, expr.span)),
                None => Ok(DataType::Void),
            },
            BuiltinFunction::Format => Ok(DataType::String),
        }
    }

    fn check_method_call_expr(&self, expr: &Expr, callee: &Expr, method_name: &String, args: &Vec<Expr>) -> (r: Result<DataType, CompileError>)
        requires
            self.inputs_wf(),
            expr.kind == (ExprKind::MethodCall { callee: Box::new(*callee), method_name: *method_name, args: *args }),
        ensures
            crate::errors::view_result(r) == tc_expr(self.ast()@, self.deps(), self.scopes(), expr@),
        decreases *expr, 0nat,
    {
        let callee_type = self.check_expr(callee)?;
        let arg_types = self.check_args(args)?;
        let types = arg_types_only(&arg_types);
        callee_type.check_method_call(method_name.as_str(), expr.span, types.as_slice())
    }

    fn check_binary_op_expr(&self, expr: &Expr, op: BinaryOp, lhs: &Expr, rhs: &Expr) -> (r: Result<DataType, CompileError>)
        requires
            self.inputs_wf(),
            expr.kind == ExprKind::BinaryOp(op, Box::new(*lhs), Box::new(*rhs)),
        ensures
            crate::errors::view_result(r) == tc_expr(self.ast()@, self.deps(), self.scopes(), expr@),
        decreases *expr, 0nat,
    {
        let lhs_type = self.check_expr(lhs)?;
        let rhs_type = self.check_expr(rhs)?;
        match op {
            BinaryOp::Add | BinaryOp::Sub | BinaryOp::Mul | BinaryOp::Div | BinaryOp::Modulo =>
                numeric_result(lhs_type, rhs_type, expr.span, DataType::Int, DataType::Float),
            BinaryOp::Less | BinaryOp::LessEqual | BinaryOp::Greater | BinaryOp::GreaterEqual =>
                numeric_result(lhs_type, rhs_type, expr.span, DataType::Bool, DataType::Bool),
            BinaryOp::Equal | BinaryOp::NotEqual => Ok(DataType::Bool),
            BinaryOp::And | BinaryOp::Or => {
                if !lhs_type.is_bool() {
                    return Err(CompileError::wrong_type_at(DataType::Bool, lhs_type, expr.span));
                }
                if !rhs_type.is_bool() {
                    return Err(CompileError::wrong_type_at(DataType::Bool, rhs_type, expr.span));
                }
                Ok(DataType::Bool)
            },
        }
    }

    /// A prefix operation; its errors are located at the operand.
    fn check_unary_op_expr(&self, expr: &Expr, inner: &Expr, op: UnaryOp) -> (r: Result<DataType, CompileError>)
        requires
            self.inputs_wf(),
            expr.kind == ExprKind::UnaryOp(op, Box::new(*inner)),
        ensures
            crate::errors::view_result(r) == tc_expr(self.ast()@, self.deps(), self.scopes(), expr@),
        decreases *expr, 0nat,
    {
        let expr_type = self.check_expr(inner)?;
        match op {
            UnaryOp::Not => {
                if !expr_type.is_bool() {
                    return Err(CompileError::wrong_type_at(DataType::Bool, expr_type, inner.span));
                }
                Ok(DataType::Bool)
            },
            UnaryOp::Negate => match expr_type {
                DataType::Int => Ok(DataType::Int),
                DataType::Float => Ok(DataType::Float),
                _ => Err(CompileError::wrong_type_at(DataType::Int, expr_type, inner.span)),
            },
        }
    }
}

} // verus!
