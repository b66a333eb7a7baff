//! The compiler: a checked tree to a module of stack-machine code.
//!
//! Each function body is compiled on its own; its variables get local slots
//! in the order they are first met, parameters first.
use vstd::prelude::*;
use super::type_checker::{
    Scopes, dep_module, deps_wf, find_dependency, lemma_dep_module_wf, tc_args, tc_expr, tc_function, tc_functions,
    tc_params, tc_stmt, tc_stmts,
};
use crate::ast::{
    Ast, AstView, SigView, sig_view, BinaryOp, BuiltinFunction, Expr, ExprKind, ExprKindView, ExprView, SpannedFunctionSigniture,
    SpannedParameter, Statement, StatementKind, StatementKindView, StatementView, UnaryOp, exprs_view,
    statements_view,
};
use crate::data_type::DataType;
use crate::errors::{CompileError, CompileErrorView, spec_unknown_foreign_function_at};
use crate::function::{InternalFunctionSigniture, InternalFunctionSource, SignitureView, SourceView};
use crate::instruction::{Instruction, InstructionView};
use crate::interpreter::{
    MachineView, binary_op_of, code_wf, instruction_wf, spec_apply_bin_op, spec_apply_un_op, spec_step, unary_op_of,
};
use crate::module::{Module, ModuleView};
use crate::name_map::{NameMap, lookup};
use crate::value::{Value, ValueView};

verus! {

/// The code emitted so far for a function and the names of its local slots.
pub struct CodeState {
    pub code: Seq<InstructionView>,
    pub locals: Seq<Seq<char>>,
}

/// The first index of `name` among the locals.
pub open spec fn local_index(locals: Seq<Seq<char>>, name: Seq<char>) -> Option<int>
    decreases locals.len(),
{
    if locals.len() == 0 {
        None
    } else {
        match local_index(locals.drop_last(), name) {
            Some(i) => Some(i),
            None => if locals.last() == name { Some(locals.len() - 1) } else { None },
        }
    }
}

/// The slot of `name`, and the locals after giving it a new slot if it had none.
pub open spec fn slot_of(locals: Seq<Seq<char>>, name: Seq<char>) -> (int, Seq<Seq<char>>) {
    match local_index(locals, name) {
        Some(i) => (i, locals),
        None => (locals.len() as int, locals.push(name)),
    }
}

/// Emits `i`.
pub open spec fn emit(st: CodeState, i: InstructionView) -> CodeState {
    CodeState { code: st.code.push(i), ..st }
}

/// Emits an instruction that uses the slot of `name`.
pub open spec fn emit_slot(st: CodeState, name: Seq<char>, store: bool) -> CodeState {
    let (slot, locals) = slot_of(st.locals, name);
    CodeState {
        code: st.code.push(
            if store { InstructionView::Store { slot: slot as u32 } } else { InstructionView::LoadCopy { slot: slot as u32 } },
        ),
        locals,
    }
}

/// Replaces the instruction at `index`.
pub open spec fn patch(st: CodeState, index: int, i: InstructionView) -> CodeState {
    CodeState { code: st.code.update(index, i), ..st }
}

pub open spec fn binary_instruction(op: BinaryOp) -> InstructionView {
    match op {
        BinaryOp::Add => InstructionView::Add,
        BinaryOp::Sub => InstructionView::Sub,
        BinaryOp::Mul => InstructionView::Mul,
        BinaryOp::Div => InstructionView::Div,
        BinaryOp::Modulo => InstructionView::Modulo,
        BinaryOp::Equal => InstructionView::Equal,
        BinaryOp::NotEqual => InstructionView::NotEqual,
        BinaryOp::Less => InstructionView::Less,
        BinaryOp::LessEqual => InstructionView::LessEqual,
        BinaryOp::Greater => InstructionView::Greater,
        BinaryOp::GreaterEqual => InstructionView::GreaterEqual,
        BinaryOp::And => InstructionView::And,
        BinaryOp::Or => InstructionView::Or,
    }
}

pub open spec fn unary_instruction(op: UnaryOp) -> InstructionView {
    match op {
        UnaryOp::Negate => InstructionView::Negate,
        UnaryOp::Not => InstructionView::Not,
    }
}

/// The instruction compiled for a binary operator applies that same
/// operator when it runs: the machine's step on it takes the top two values
/// and applies `op` to them.
pub proof fn lemma_binary_instruction_runs_op(srcs: Seq<SourceView>, m: MachineView, op: BinaryOp)
    requires
        0 <= m.frames.last().index < srcs[m.frames.last().function].body.len(),
        srcs[m.frames.last().function].body[m.frames.last().index] == binary_instruction(op),
    ensures
        binary_op_of(binary_instruction(op)) == Some(op),
        unary_op_of(binary_instruction(op)) is None,
        spec_step(srcs, m) == spec_apply_bin_op(op, m),
{
}

/// Likewise for a prefix operator: its instruction applies `op` to the top
/// value.
pub proof fn lemma_unary_instruction_runs_op(srcs: Seq<SourceView>, m: MachineView, op: UnaryOp)
    requires
        0 <= m.frames.last().index < srcs[m.frames.last().function].body.len(),
        srcs[m.frames.last().function].body[m.frames.last().index] == unary_instruction(op),
    ensures
        unary_op_of(unary_instruction(op)) == Some(op),
        binary_op_of(unary_instruction(op)) is None,
        spec_step(srcs, m) == spec_apply_un_op(op, m),
{
}

/// The slot of function `name` in the dependency called `module_name`.
pub open spec fn foreign_slot(deps: Seq<(String, Module)>, module_name: Seq<char>, name: Seq<char>) -> Option<u32> {
    match dep_module(deps, module_name) {
        Some(m) => lookup(m.function_map().entries(), name),
        None => None,
    }
}

/// The code for an expression: it leaves the expression's value on the
/// stack. Operands and arguments are compiled left to right (a method's
/// arguments before its receiver). A call of a function that `fmap` lacks
/// compiles to nothing; checked trees have none.
pub open spec fn ce_expr(fmap: Seq<(Seq<char>, u32)>, deps: Seq<(String, Module)>, st: CodeState, e: ExprView) -> Result<CodeState, CompileErrorView>
    decreases e,
{
    match e.kind {
        ExprKindView::Literal(v) => Ok(emit(st, InstructionView::LoadConst(v@))),
        ExprKindView::Var(name) => Ok(emit_slot(st, name@, false)),
        ExprKindView::BinaryOp(op, l, r) => match ce_expr(fmap, deps, st, *l) {
            Err(x) => Err(x),
            Ok(s1) => match ce_expr(fmap, deps, s1, *r) {
                Err(x) => Err(x),
                Ok(s2) => Ok(emit(s2, binary_instruction(op))),
            },
        },
        ExprKindView::UnaryOp(op, x) => match ce_expr(fmap, deps, st, *x) {
            Err(err) => Err(err),
            Ok(s1) => Ok(emit(s1, unary_instruction(op))),
        },
        ExprKindView::FunctionCall { func_name, args } => match ce_args(fmap, deps, st, args) {
            Err(x) => Err(x),
            Ok(s1) => match lookup(fmap, func_name@) {
                Some(slot) => Ok(emit(s1, InstructionView::Call { call_slot: slot })),
                None => Ok(s1),
            },
        },
        ExprKindView::ForeignFunctionCall { module_name, func_name, args } => match ce_args(fmap, deps, st, args) {
            Err(x) => Err(x),
            Ok(s1) => match foreign_slot(deps, module_name@, func_name@) {
                Some(slot) => Ok(emit(s1, InstructionView::ForeignCall { module_name: module_name@, call_slot: slot })),
                None => Err(spec_unknown_foreign_function_at(module_name, func_name, e.span)),
            },
        },
        ExprKindView::BuiltinFunctionCall { function, args } => match ce_args(fmap, deps, st, args) {
            Err(x) => Err(x),
            Ok(s1) => Ok(emit(s1, InstructionView::BuiltinFunctionCall { function, arg_count: args.len() as u32 })),
        },
        ExprKindView::MethodCall { callee, method_name, args } => match ce_args(fmap, deps, st, args) {
            Err(x) => Err(x),
            Ok(s1) => match ce_expr(fmap, deps, s1, *callee) {
                Err(x) => Err(x),
                Ok(s2) => Ok(emit(s2, InstructionView::MethodCall { method_name: method_name@, arg_count: args.len() as u32 })),
            },
        },
    }
}

/// The code for arguments, in order.
pub open spec fn ce_args(fmap: Seq<(Seq<char>, u32)>, deps: Seq<(String, Module)>, st: CodeState, args: Seq<ExprView>) -> Result<CodeState, CompileErrorView>
    decreases args,
{
    if args.len() == 0 {
        Ok(st)
    } else {
        match ce_args(fmap, deps, st, args.drop_last()) {
            Err(x) => Err(x),
            Ok(s1) => ce_expr(fmap, deps, s1, args.last()),
        }
    }
}

/// The code for a statement. Jumps name absolute indices in the function's
/// code; a conditional jump is emitted with target 0 and set once the code
/// it jumps over is known.
pub open spec fn cs_stmt(fmap: Seq<(Seq<char>, u32)>, deps: Seq<(String, Module)>, st: CodeState, s: StatementView) -> Result<CodeState, CompileErrorView>
    decreases s,
{
    match s.kind {
        StatementKindView::VarDeclare { variable, value, .. } => match ce_expr(fmap, deps, st, value) {
            Err(x) => Err(x),
            Ok(s1) => Ok(emit_slot(s1, variable@, true)),
        },
        StatementKindView::VarAssign { variable, value } => match ce_expr(fmap, deps, st, value) {
            Err(x) => Err(x),
            Ok(s1) => Ok(emit_slot(s1, variable@, true)),
        },
        StatementKindView::Expr(e) => match ce_expr(fmap, deps, st, e) {
            Err(x) => Err(x),
            Ok(s1) => Ok(emit(s1, InstructionView::Pop)),
        },
        StatementKindView::If { condition, if_block, else_block } => match ce_expr(fmap, deps, st, condition) {
            Err(x) => Err(x),
            Ok(s1) => {
                let cond_jump = s1.code.len() as int;
                match cs_stmts(fmap, deps, emit(s1, InstructionView::JumpIfFalse(0)), if_block) {
                    Err(x) => Err(x),
                    Ok(s2) => match else_block {
                        Some(b) => {
                            let if_jump = s2.code.len() as int;
                            let s3 = emit(s2, InstructionView::Jump(0));
                            let s4 = patch(s3, cond_jump, InstructionView::JumpIfFalse(s3.code.len() as u32));
                            match cs_stmts(fmap, deps, s4, b) {
                                Err(x) => Err(x),
                                Ok(s5) => Ok(patch(s5, if_jump, InstructionView::Jump(s5.code.len() as u32))),
                            }
                        },
                        None => Ok(patch(s2, cond_jump, InstructionView::JumpIfFalse(s2.code.len() as u32))),
                    },
                }
            },
        },
        StatementKindView::While { condition, block } => {
            let start = st.code.len() as int;
            match ce_expr(fmap, deps, st, condition) {
                Err(x) => Err(x),
                Ok(s1) => {
                    let cond_jump = s1.code.len() as int;
                    match cs_stmts(fmap, deps, emit(s1, InstructionView::JumpIfFalse(0)), block) {
                        Err(x) => Err(x),
                        Ok(s2) => {
                            let s3 = emit(s2, InstructionView::Jump(start as u32));
                            Ok(patch(s3, cond_jump, InstructionView::JumpIfFalse(s3.code.len() as u32)))
                        },
                    }
                },
            }
        },
        StatementKindView::Return(e) => match ce_expr(fmap, deps, st, e) {
            Err(x) => Err(x),
            Ok(s1) => Ok(emit(s1, InstructionView::Return)),
        },
    }
}

/// The code for statements, in order.
pub open spec fn cs_stmts(fmap: Seq<(Seq<char>, u32)>, deps: Seq<(String, Module)>, st: CodeState, ss: Seq<StatementView>) -> Result<CodeState, CompileErrorView>
    decreases ss,
{
    if ss.len() == 0 {
        Ok(st)
    } else {
        match cs_stmts(fmap, deps, st, ss.drop_last()) {
            Err(x) => Err(x),
            Ok(s1) => cs_stmt(fmap, deps, s1, ss.last()),
        }
    }
}

/// The code that takes the arguments off the stack into the parameters'
/// slots: one store per parameter, in order.
pub open spec fn setup_params(st: CodeState, params: Seq<SpannedParameter>) -> CodeState
    decreases params.len(),
{
    if params.len() == 0 {
        st
    } else {
        emit_slot(setup_params(st, params.drop_last()), params.last().name@, true)
    }
}

/// A compiled function: the parameter stores, the body, and for a `Void`
/// function an implicit `return` of `Void` at the end.
pub open spec fn cf(fmap: Seq<(Seq<char>, u32)>, deps: Seq<(String, Module)>, sig: SigView, body: Seq<StatementView>) -> Result<SourceView, CompileErrorView> {
    let s0 = setup_params(CodeState { code: Seq::empty(), locals: Seq::empty() }, sig.params);
    match cs_stmts(fmap, deps, s0, body) {
        Err(x) => Err(x),
        Ok(s1) => {
            let s2 = if sig.return_type == DataType::Void {
                emit(emit(s1, InstructionView::LoadConst(ValueView::Void)), InstructionView::Return)
            } else {
                s1
            };
            Ok(SourceView { slot_count: s2.locals.len() as usize, body: s2.code })
        },
    }
}

/// Once a prefix of the arguments fails to compile, the whole list fails the same way.
proof fn lemma_args_prefix_err(fmap: Seq<(Seq<char>, u32)>, deps: Seq<(String, Module)>, st: CodeState, args: Seq<ExprView>, k: int)
    requires
        0 <= k <= args.len(),
        ce_args(fmap, deps, st, args.take(k)) is Err,
    ensures
        ce_args(fmap, deps, st, args) == ce_args(fmap, deps, st, args.take(k)),
    decreases args.len(),
{
    if args.len() == k {
        assert(args.take(k) =~= args);
    } else {
        assert(args.drop_last().take(k) =~= args.take(k));
        lemma_args_prefix_err(fmap, deps, st, args.drop_last(), k);
    }
}

/// Once a prefix of the statements fails to compile, the whole list fails the same way.
proof fn lemma_stmts_prefix_err(fmap: Seq<(Seq<char>, u32)>, deps: Seq<(String, Module)>, st: CodeState, ss: Seq<StatementView>, k: int)
    requires
        0 <= k <= ss.len(),
        cs_stmts(fmap, deps, st, ss.take(k)) is Err,
    ensures
        cs_stmts(fmap, deps, st, ss) == cs_stmts(fmap, deps, st, ss.take(k)),
    decreases ss.len(),
{
    if ss.len() == k {
        assert(ss.take(k) =~= ss);
    } else {
        assert(ss.drop_last().take(k) =~= ss.take(k));
        lemma_stmts_prefix_err(fmap, deps, st, ss.drop_last(), k);
    }
}

/// What `local_index` finds: the first index holding `name`, or none.
proof fn lemma_local_index(locals: Seq<Seq<char>>, name: Seq<char>)
    ensures
        local_index(locals, name) matches Some(i) ==> 0 <= i < locals.len() && locals[i] == name
            && forall|j: int| 0 <= j < i ==> locals[j] != name,
        local_index(locals, name) is None ==> forall|j: int| 0 <= j < locals.len() ==> locals[j] != name,
    decreases locals.len(),
{
    if locals.len() > 0 {
        lemma_local_index(locals.drop_last(), name);
        assert forall|j: int| 0 <= j < locals.len() - 1 implies locals.drop_last()[j] == locals[j] by {}
    }
}

/// An instruction's local slot is below `nlocals` and its called function
/// below `nfuncs`.
pub open spec fn instr_in_bounds(i: InstructionView, nlocals: int, nfuncs: int) -> bool {
    match i {
        InstructionView::Store { slot } => slot < nlocals,
        InstructionView::LoadCopy { slot } => slot < nlocals,
        InstructionView::Call { call_slot } => call_slot < nfuncs,
        _ => true,
    }
}

/// Every instruction of `code` is in bounds.
pub open spec fn code_in_bounds(code: Seq<InstructionView>, nlocals: int, nfuncs: int) -> bool {
    forall|k: int| 0 <= k < code.len() ==> instr_in_bounds(#[trigger] code[k], nlocals, nfuncs)
}

/// The code emitted so far uses only the locals named so far.
pub open spec fn state_in_bounds(st: CodeState, nfuncs: int) -> bool {
    code_in_bounds(st.code, st.locals.len() as int, nfuncs)
}

/// Every slot in a function map is below `n`.
pub open spec fn slots_below(fmap: Seq<(Seq<char>, u32)>, n: int) -> bool {
    forall|k: int| 0 <= k < fmap.len() ==> (#[trigger] fmap[k]).1 < n
}

proof fn lemma_lookup_below(fmap: Seq<(Seq<char>, u32)>, name: Seq<char>, n: int)
    requires
        slots_below(fmap, n),
    ensures
        lookup(fmap, name) matches Some(slot) ==> slot < n,
    decreases fmap.len(),
{
    if fmap.len() > 0 && fmap.last().0 != name {
        assert(slots_below(fmap.drop_last(), n)) by {
            assert forall|k: int| 0 <= k < fmap.drop_last().len() implies (#[trigger] fmap.drop_last()[k]).1 < n by {
                assert(fmap.drop_last()[k] == fmap[k]);
            }
        }
        lemma_lookup_below(fmap.drop_last(), name, n);
    }
}

proof fn lemma_emit_in_bounds(st: CodeState, i: InstructionView, n: int)
    requires
        state_in_bounds(st, n),
        instr_in_bounds(i, st.locals.len() as int, n),
    ensures
        state_in_bounds(emit(st, i), n),
{
    let c = emit(st, i).code;
    assert forall|k: int| 0 <= k < c.len() implies instr_in_bounds(#[trigger] c[k], st.locals.len() as int, n) by {
        if k < st.code.len() {
            assert(c[k] == st.code[k]);
        }
    }
}

proof fn lemma_emit_slot_in_bounds(st: CodeState, name: Seq<char>, store: bool, n: int)
    requires
        state_in_bounds(st, n),
    ensures
        state_in_bounds(emit_slot(st, name, store), n),
        st.locals.len() <= emit_slot(st, name, store).locals.len(),
        emit_slot(st, name, store).code.len() == st.code.len() + 1,
{
    lemma_local_index(st.locals, name);
    let (slot, locals) = slot_of(st.locals, name);
    let r = emit_slot(st, name, store);
    assert(0 <= slot < locals.len());
    if slot <= u32::MAX {
        assert(slot as u32 as int == slot);
    }
    assert((slot as u32) < locals.len());
    assert forall|k: int| 0 <= k < r.code.len() implies instr_in_bounds(#[trigger] r.code[k], locals.len() as int, n) by {
        if k < st.code.len() {
            assert(r.code[k] == st.code[k]);
            assert(instr_in_bounds(st.code[k], st.locals.len() as int, n));
        }
    }
}

proof fn lemma_patch_in_bounds(st: CodeState, index: int, i: InstructionView, n: int)
    requires
        state_in_bounds(st, n),
        0 <= index < st.code.len(),
        instr_in_bounds(i, st.locals.len() as int, n),
    ensures
        state_in_bounds(patch(st, index, i), n),
        patch(st, index, i).code.len() == st.code.len(),
        patch(st, index, i).locals == st.locals,
{
    let c = patch(st, index, i).code;
    assert forall|k: int| 0 <= k < c.len() implies instr_in_bounds(#[trigger] c[k], st.locals.len() as int, n) by {
        if k != index {
            assert(c[k] == st.code[k]);
        }
    }
}

/// The code for an expression keeps the emitted code in bounds; locals and
/// code only grow.
proof fn lemma_ce_expr_bounds(fmap: Seq<(Seq<char>, u32)>, deps: Seq<(String, Module)>, st: CodeState, e: ExprView, n: int)
    requires
        slots_below(fmap, n),
        state_in_bounds(st, n),
    ensures
        ce_expr(fmap, deps, st, e) matches Ok(r) ==> state_in_bounds(r, n) && st.locals.len() <= r.locals.len()
            && st.code.len() <= r.code.len(),
    decreases e,
{
    match e.kind {
        ExprKindView::Literal(v) => {
            lemma_emit_in_bounds(st, InstructionView::LoadConst(v@), n);
        },
        ExprKindView::Var(name) => {
            lemma_emit_slot_in_bounds(st, name@, false, n);
        },
        ExprKindView::BinaryOp(op, l, r) => {
            lemma_ce_expr_bounds(fmap, deps, st, *l, n);
            if let Ok(s1) = ce_expr(fmap, deps, st, *l) {
                lemma_ce_expr_bounds(fmap, deps, s1, *r, n);
                if let Ok(s2) = ce_expr(fmap, deps, s1, *r) {
                    lemma_emit_in_bounds(s2, binary_instruction(op), n);
                }
            }
        },
        ExprKindView::UnaryOp(op, x) => {
            lemma_ce_expr_bounds(fmap, deps, st, *x, n);
            if let Ok(s1) = ce_expr(fmap, deps, st, *x) {
                lemma_emit_in_bounds(s1, unary_instruction(op), n);
            }
        },
        ExprKindView::FunctionCall { func_name, args } => {
            lemma_ce_args_bounds(fmap, deps, st, args, n);
            if let Ok(s1) = ce_args(fmap, deps, st, args) {
                lemma_lookup_below(fmap, func_name@, n);
                if let Some(slot) = lookup(fmap, func_name@) {
                    lemma_emit_in_bounds(s1, InstructionView::Call { call_slot: slot }, n);
                }
            }
        },
        ExprKindView::ForeignFunctionCall { module_name, func_name, args } => {
            lemma_ce_args_bounds(fmap, deps, st, args, n);
            if let Ok(s1) = ce_args(fmap, deps, st, args) {
                if let Some(slot) = foreign_slot(deps, module_name@, func_name@) {
                    lemma_emit_in_bounds(s1, InstructionView::ForeignCall { module_name: module_name@, call_slot: slot }, n);
                }
            }
        },
        ExprKindView::BuiltinFunctionCall { function, args } => {
            lemma_ce_args_bounds(fmap, deps, st, args, n);
            if let Ok(s1) = ce_args(fmap, deps, st, args) {
                lemma_emit_in_bounds(s1, InstructionView::BuiltinFunctionCall { function, arg_count: args.len() as u32 }, n);
            }
        },
        ExprKindView::MethodCall { callee, method_name, args } => {
            lemma_ce_args_bounds(fmap, deps, st, args, n);
            if let Ok(s1) = ce_args(fmap, deps, st, args) {
                lemma_ce_expr_bounds(fmap, deps, s1, *callee, n);
                if let Ok(s2) = ce_expr(fmap, deps, s1, *callee) {
                    lemma_emit_in_bounds(s2, InstructionView::MethodCall { method_name: method_name@, arg_count: args.len() as u32 }, n);
                }
            }
        },
    }
}

proof fn lemma_ce_args_bounds(fmap: Seq<(Seq<char>, u32)>, deps: Seq<(String, Module)>, st: CodeState, args: Seq<ExprView>, n: int)
    requires
        slots_below(fmap, n),
        state_in_bounds(st, n),
    ensures
        ce_args(fmap, deps, st, args) matches Ok(r) ==> state_in_bounds(r, n) && st.locals.len() <= r.locals.len()
            && st.code.len() <= r.code.len(),
    decreases args,
{
    if args.len() > 0 {
        lemma_ce_args_bounds(fmap, deps, st, args.drop_last(), n);
        if let Ok(s1) = ce_args(fmap, deps, st, args.drop_last()) {
            lemma_ce_expr_bounds(fmap, deps, s1, args.last(), n);
        }
    }
}

/// The code for a statement keeps the emitted code in bounds; locals and
/// code only grow.
proof fn lemma_cs_stmt_bounds(fmap: Seq<(Seq<char>, u32)>, deps: Seq<(String, Module)>, st: CodeState, s: StatementView, n: int)
    requires
        slots_below(fmap, n),
        state_in_bounds(st, n),
    ensures
        cs_stmt(fmap, deps, st, s) matches Ok(r) ==> state_in_bounds(r, n) && st.locals.len() <= r.locals.len()
            && st.code.len() <= r.code.len(),
    decreases s,
{
    match s.kind {
        StatementKindView::VarDeclare { variable, value, .. } => {
            lemma_ce_expr_bounds(fmap, deps, st, value, n);
            if let Ok(s1) = ce_expr(fmap, deps, st, value) {
                lemma_emit_slot_in_bounds(s1, variable@, true, n);
            }
        },
        StatementKindView::VarAssign { variable, value } => {
            lemma_ce_expr_bounds(fmap, deps, st, value, n);
            if let Ok(s1) = ce_expr(fmap, deps, st, value) {
                lemma_emit_slot_in_bounds(s1, variable@, true, n);
            }
        },
        StatementKindView::Expr(e) => {
            lemma_ce_expr_bounds(fmap, deps, st, e, n);
            if let Ok(s1) = ce_expr(fmap, deps, st, e) {
                lemma_emit_in_bounds(s1, InstructionView::Pop, n);
            }
        },
        StatementKindView::Return(e) => {
            lemma_ce_expr_bounds(fmap, deps, st, e, n);
            if let Ok(s1) = ce_expr(fmap, deps, st, e) {
                lemma_emit_in_bounds(s1, InstructionView::Return, n);
            }
        },
        StatementKindView::If { condition, if_block, else_block } => {
            lemma_ce_expr_bounds(fmap, deps, st, condition, n);
            if let Ok(s1) = ce_expr(fmap, deps, st, condition) {
                let cond_jump = s1.code.len() as int;
                let e1 = emit(s1, InstructionView::JumpIfFalse(0));
                lemma_emit_in_bounds(s1, InstructionView::JumpIfFalse(0), n);
                lemma_cs_stmts_bounds(fmap, deps, e1, if_block, n);
                if let Ok(s2) = cs_stmts(fmap, deps, e1, if_block) {
                    match else_block {
                        Some(b) => {
                            let if_jump = s2.code.len() as int;
                            let s3 = emit(s2, InstructionView::Jump(0));
                            lemma_emit_in_bounds(s2, InstructionView::Jump(0), n);
                            let s4 = patch(s3, cond_jump, InstructionView::JumpIfFalse(s3.code.len() as u32));
                            lemma_patch_in_bounds(s3, cond_jump, InstructionView::JumpIfFalse(s3.code.len() as u32), n);
                            lemma_cs_stmts_bounds(fmap, deps, s4, b, n);
                            if let Ok(s5) = cs_stmts(fmap, deps, s4, b) {
                                lemma_patch_in_bounds(s5, if_jump, InstructionView::Jump(s5.code.len() as u32), n);
                            }
                        },
                        None => {
                            lemma_patch_in_bounds(s2, cond_jump, InstructionView::JumpIfFalse(s2.code.len() as u32), n);
                        },
                    }
                }
            }
        },
        StatementKindView::While { condition, block } => {
            lemma_ce_expr_bounds(fmap, deps, st, condition, n);
            if let Ok(s1) = ce_expr(fmap, deps, st, condition) {
                let start = st.code.len() as int;
                let cond_jump = s1.code.len() as int;
                let e1 = emit(s1, InstructionView::JumpIfFalse(0));
                lemma_emit_in_bounds(s1, InstructionView::JumpIfFalse(0), n);
                lemma_cs_stmts_bounds(fmap, deps, e1, block, n);
                if let Ok(s2) = cs_stmts(fmap, deps, e1, block) {
                    let s3 = emit(s2, InstructionView::Jump(start as u32));
                    lemma_emit_in_bounds(s2, InstructionView::Jump(start as u32), n);
                    lemma_patch_in_bounds(s3, cond_jump, InstructionView::JumpIfFalse(s3.code.len() as u32), n);
                }
            }
        },
    }
}

proof fn lemma_cs_stmts_bounds(fmap: Seq<(Seq<char>, u32)>, deps: Seq<(String, Module)>, st: CodeState, ss: Seq<StatementView>, n: int)
    requires
        slots_below(fmap, n),
        state_in_bounds(st, n),
    ensures
        cs_stmts(fmap, deps, st, ss) matches Ok(r) ==> state_in_bounds(r, n) && st.locals.len() <= r.locals.len()
            && st.code.len() <= r.code.len(),
    decreases ss,
{
    if ss.len() > 0 {
        lemma_cs_stmts_bounds(fmap, deps, st, ss.drop_last(), n);
        if let Ok(s1) = cs_stmts(fmap, deps, st, ss.drop_last()) {
            lemma_cs_stmt_bounds(fmap, deps, s1, ss.last(), n);
        }
    }
}

proof fn lemma_setup_params_bounds(st: CodeState, params: Seq<SpannedParameter>, n: int)
    requires
        state_in_bounds(st, n),
    ensures
        state_in_bounds(setup_params(st, params), n),
    decreases params.len(),
{
    if params.len() > 0 {
        lemma_setup_params_bounds(st, params.drop_last(), n);
        lemma_emit_slot_in_bounds(setup_params(st, params.drop_last()), params.last().name@, true, n);
    }
}

/// The plain-data form of a sequence of instructions.
pub open spec fn code_view(code: Seq<Instruction>) -> Seq<InstructionView> {
    code.map_values(|i: Instruction| i@)
}

/// The plain-data form of a sequence of local names.
pub open spec fn locals_view(locals: Seq<String>) -> Seq<Seq<char>> {
    locals.map_values(|s: String| s@)
}

pub open spec fn code_result(r: Result<(), CompileError>, expected: Result<CodeState, CompileErrorView>, after: CodeState) -> bool {
    match expected {
        Ok(st) => r is Ok && after == st,
        Err(e) => r matches Err(x) && x@ == e,
    }
}

fn bin_op_to_instruction(op: BinaryOp) -> (i: Instruction)
    ensures
        i@ == binary_instruction(op),
{
    match op {
        BinaryOp::Add => Instruction::Add,
        BinaryOp::Sub => Instruction::Sub,
        BinaryOp::Mul => Instruction::Mul,
        BinaryOp::Div => Instruction::Div,
        BinaryOp::Modulo => Instruction::Modulo,
        BinaryOp::Equal => Instruction::Equal,
        BinaryOp::NotEqual => Instruction::NotEqual,
        BinaryOp::Less => Instruction::Less,
        BinaryOp::LessEqual => Instruction::LessEqual,
        BinaryOp::Greater => Instruction::Greater,
        BinaryOp::GreaterEqual => Instruction::GreaterEqual,
        BinaryOp::And => Instruction::And,
        BinaryOp::Or => Instruction::Or,
    }
}

fn un_op_to_instruction(op: UnaryOp) -> (i: Instruction)
    ensures
        i@ == unary_instruction(op),
{
    match op {
        UnaryOp::Negate => Instruction::Negate,
        UnaryOp::Not => Instruction::Not,
    }
}

/// Compiles one function body.
struct FunctionCompiler<'b> {
    dependencies: &'b [(String, Module)],
    function_map: &'b NameMap,
    instructions: Vec<Instruction>,
    locals: Vec<String>,
}

impl<'b> FunctionCompiler<'b> {
    spec fn state(&self) -> CodeState {
        CodeState { code: code_view(self.instructions@), locals: locals_view(self.locals@) }
    }

    spec fn inputs_wf(&self) -> bool {
        &&& self.function_map.wf()
        &&& deps_wf(self.dependencies@)
    }

    fn new(dependencies: &'b [(String, Module)], function_map: &'b NameMap) -> (c: Self)
        ensures
            c.state() == (CodeState { code: Seq::empty(), locals: Seq::empty() }),
            c.dependencies == dependencies,
            c.function_map == function_map,
    {
        let c = Self { dependencies, function_map, instructions: Vec::new(), locals: Vec::new() };
        assert(c.state().code =~= Seq::<InstructionView>::empty());
        assert(c.state().locals =~= Seq::<Seq<char>>::empty());
        c
    }

    /// The local slot of `name`, given a new slot if it has none.
    fn get_slot(&mut self, name: &String) -> (slot: usize)
        ensures
            final(self).dependencies == old(self).dependencies,
            final(self).function_map == old(self).function_map,
            final(self).instructions == old(self).instructions,
            (slot as int, final(self).state().locals) == slot_of(old(self).state().locals, name@),
    {
        let ghost ls = self.state().locals;
        proof {
            lemma_local_index(ls, name@);
        }
        let mut i: usize = 0;
        while i < self.locals.len()
            invariant
                i <= self.locals@.len(),
                ls == locals_view(self.locals@),
                forall|j: int| 0 <= j < i ==> ls[j] != name@,
            decreases self.locals@.len() - i,
        {
            if crate::text::str_equal(self.locals[i].as_str(), name.as_str()) {
                proof {
                    lemma_local_index(ls, name@);
                    assert(ls[i as int] == name@);
                }
                return i;
            }
            i = i + 1;
        }
        proof {
            lemma_local_index(ls, name@);
        }
        let slot = self.locals.len();
        self.locals.push(name.clone());
        assert(locals_view(self.locals@) =~= ls.push(name@));
        slot
    }

    fn push(&mut self, instr: Instruction)
        ensures
            final(self).dependencies == old(self).dependencies,
            final(self).function_map == old(self).function_map,
            final(self).state() == emit(old(self).state(), instr@),
            final(self).instructions@.len() == old(self).instructions@.len() + 1,
    {
        self.instructions.push(instr);
        assert(code_view(self.instructions@) =~= code_view(old(self).instructions@).push(instr@));
    }

    /// Emits an instruction that uses the slot of `name`: a store or a load.
    fn push_slot(&mut self, name: &String, store: bool)
        ensures
            final(self).dependencies == old(self).dependencies,
            final(self).function_map == old(self).function_map,
            final(self).state() == emit_slot(old(self).state(), name@, store),
            final(self).instructions@.len() == old(self).instructions@.len() + 1,
    {
        let slot = self.get_slot(name) as u32;
        if store {
            self.push(Instruction::Store { slot });
        } else {
            self.push(Instruction::LoadCopy { slot });
        }
    }

    fn update_instruction_at(&mut self, index: usize, inst: Instruction)
        requires
            index < old(self).instructions@.len(),
        ensures
            final(self).dependencies == old(self).dependencies,
            final(self).function_map == old(self).function_map,
            final(self).state() == patch(old(self).state(), index as int, inst@),
            final(self).instructions@.len() == old(self).instructions@.len(),
    {
        let ghost iv = inst@;
        self.instructions.set(index, inst);
        assert(code_view(self.instructions@) =~= code_view(old(self).instructions@).update(index as int, iv));
    }

    /// Emits the stores of the parameters.
    fn setup_parameters(&mut self, params: &Vec<SpannedParameter>)
        ensures
            final(self).dependencies == old(self).dependencies,
            final(self).function_map == old(self).function_map,
            final(self).state() == setup_params(old(self).state(), params@),
    {
        let mut i: usize = 0;
        assert(params@.take(0) =~= Seq::<SpannedParameter>::empty());
        while i < params.len()
            invariant
                i <= params@.len(),
                self.dependencies == old(self).dependencies,
                self.function_map == old(self).function_map,
                self.state() == setup_params(old(self).state(), params@.take(i as int)),
            decreases params@.len() - i,
        {
            self.push_slot(&params[i].name, true);
            proof {
                assert(params@.take(i + 1).drop_last() =~= params@.take(i as int));
            }
            i = i + 1;
        }
        assert(params@.take(i as int) =~= params@);
    }

    /// Compiles an expression; the code leaves its value on the stack.
    fn compile_expr(&mut self, expr: &Expr) -> (r: Result<(), CompileError>)
        requires
            old(self).inputs_wf(),
        ensures
            final(self).dependencies == old(self).dependencies,
            final(self).function_map == old(self).function_map,
            code_result(r, ce_expr(old(self).function_map.entries(), old(self).dependencies@, old(self).state(), expr@), final(self).state()),
            old(self).instructions@.len() <= final(self).instructions@.len(),
        decreases *expr, 1nat,
    {
        match &expr.kind {
            ExprKind::Literal(v) => {
                self.push(Instruction::LoadConst(v.clone()));
            },
            ExprKind::Var(name) => {
                self.push_slot(name, false);
            },
            ExprKind::BinaryOp(op, lhs, rhs) => {
                self.compile_expr(lhs)?;
                self.compile_expr(rhs)?;
                self.push(bin_op_to_instruction(*op));
            },
            ExprKind::UnaryOp(op, inner) => {
                self.compile_expr(inner)?;
                self.push(un_op_to_instruction(*op));
            },
            ExprKind::FunctionCall { func_name, args } => {
                self.compile_args(args)?;
                if let Some(call_slot) = self.function_map.get(func_name.as_str()) {
                    self.push(Instruction::Call { call_slot });
                }
            },
            ExprKind::ForeignFunctionCall { module_name, func_name, args } => {
                self.compile_args(args)?;
                proof {
                    lemma_dep_module_wf(self.dependencies@, module_name@);
                }
                let call_slot = match find_dependency(self.dependencies, module_name.as_str()) {
                    Some(module) => module.get_slot(func_name.as_str()),
                    None => None,
                };
                match call_slot {
                    Some(call_slot) => {
                        self.push(Instruction::ForeignCall { module_name: module_name.clone(), call_slot });
                    },
                    None => {
                        return Err(CompileError::unknown_foreign_function_at(module_name, func_name, expr.span));
                    },
                }
            },
            ExprKind::BuiltinFunctionCall { function, args } => {
                proof {
                    crate::ast::lemma_exprs_view_take(args@, 0);
                }
                self.compile_args(args)?;
                self.push(Instruction::BuiltinFunctionCall { function: *function, arg_count: args.len() as u32 });
            },
            ExprKind::MethodCall { callee, method_name, args } => {
                proof {
                    crate::ast::lemma_exprs_view_take(args@, 0);
                }
                self.compile_args(args)?;
                self.compile_expr(callee)?;
                self.push(Instruction::MethodCall { method_name: method_name.clone(), arg_count: args.len() as u32 });
            },
        }
        Ok(())
    }

    /// Compiles arguments in order.
    fn compile_args(&mut self, args: &Vec<Expr>) -> (r: Result<(), CompileError>)
        requires
            old(self).inputs_wf(),
        ensures
            final(self).dependencies == old(self).dependencies,
            final(self).function_map == old(self).function_map,
            code_result(r, ce_args(old(self).function_map.entries(), old(self).dependencies@, old(self).state(), exprs_view(args@)), final(self).state()),
            old(self).instructions@.len() <= final(self).instructions@.len(),
        decreases args@, 2nat,
    {
        let ghost fmap = self.function_map.entries();
        let ghost deps = self.dependencies@;
        let ghost s0 = self.state();
        let ghost all = exprs_view(args@);
        let mut i: usize = 0;
        let mut failure: Option<CompileError> = None;
        assert(args@.take(0) =~= Seq::<Expr>::empty());
        while i < args.len()
            invariant_except_break
                failure is None,
                self.dependencies == old(self).dependencies,
                self.function_map == old(self).function_map,
                self.inputs_wf(),
                fmap == self.function_map.entries(),
                deps == self.dependencies@,
                all == exprs_view(args@),
                i <= args@.len(),
                ce_args(fmap, deps, s0, exprs_view(args@.take(i as int))) == Ok::<CodeState, CompileErrorView>(self.state()),
                i == args@.len() ==> args@.take(i as int) == args@,
                old(self).instructions@.len() <= self.instructions@.len(),
            ensures
                self.dependencies == old(self).dependencies,
                self.function_map == old(self).function_map,
                failure matches Some(e) ==> ce_args(fmap, deps, s0, all) == Err::<CodeState, CompileErrorView>(e@),
                failure is None ==> ce_args(fmap, deps, s0, all) == Ok::<CodeState, CompileErrorView>(self.state()),
                old(self).instructions@.len() <= self.instructions@.len(),
            decreases args@.len() - i,
        {
            proof {
                let t = args@.take(i + 1);
                assert(t.drop_last() =~= args@.take(i as int));
                assert(exprs_view(t).drop_last() =~= exprs_view(args@.take(i as int)));
                assert(exprs_view(t).last() == args@[i as int]@);
                if i + 1 == args@.len() {
                    assert(t =~= args@);
                }
            }
            match self.compile_expr(&args[i]) {
                Ok(()) => {
                    i = i + 1;
                },
                Err(e) => {
                    proof {
                        crate::ast::lemma_exprs_view_take(args@, i + 1);
                        lemma_args_prefix_err(fmap, deps, s0, all, i + 1);
                    }
                    failure = Some(e);
                    break;
                },
            }
        }
        match failure {
            Some(e) => Err(e),
            None => Ok(()),
        }
    }

    /// Compiles statements in order.
    fn compile_statements(&mut self, statements: &[Statement]) -> (r: Result<(), CompileError>)
        requires
            old(self).inputs_wf(),
        ensures
            final(self).dependencies == old(self).dependencies,
            final(self).function_map == old(self).function_map,
            code_result(r, cs_stmts(old(self).function_map.entries(), old(self).dependencies@, old(self).state(), statements_view(statements@)), final(self).state()),
            old(self).instructions@.len() <= final(self).instructions@.len(),
        decreases statements@, 0nat,
    {
        let ghost fmap = self.function_map.entries();
        let ghost deps = self.dependencies@;
        let ghost s0 = self.state();
        let ghost all = statements_view(statements@);
        let mut i: usize = 0;
        let mut failure: Option<CompileError> = None;
        assert(statements@.take(0) =~= Seq::<Statement>::empty());
        while i < statements.len()
            invariant_except_break
                failure is None,
                self.dependencies == old(self).dependencies,
                self.function_map == old(self).function_map,
                self.inputs_wf(),
                fmap == self.function_map.entries(),
                deps == self.dependencies@,
                all == statements_view(statements@),
                i <= statements@.len(),
                cs_stmts(fmap, deps, s0, statements_view(statements@.take(i as int))) == Ok::<CodeState, CompileErrorView>(self.state()),
                i == statements@.len() ==> statements@.take(i as int) == statements@,
                old(self).instructions@.len() <= self.instructions@.len(),
            ensures
                self.dependencies == old(self).dependencies,
                self.function_map == old(self).function_map,
                failure matches Some(e) ==> cs_stmts(fmap, deps, s0, all) == Err::<CodeState, CompileErrorView>(e@),
                failure is None ==> cs_stmts(fmap, deps, s0, all) == Ok::<CodeState, CompileErrorView>(self.state()),
                old(self).instructions@.len() <= self.instructions@.len(),
            decreases statements@.len() - i,
        {
            proof {
                let t = statements@.take(i + 1);
                assert(t.drop_last() =~= statements@.take(i as int));
                assert(statements_view(t).drop_last() =~= statements_view(statements@.take(i as int)));
                assert(statements_view(t).last() == statements@[i as int]@);
                if i + 1 == statements@.len() {
                    assert(t =~= statements@);
                }
            }
            match self.compile_statement(&statements[i]) {
                Ok(()) => {
                    i = i + 1;
                },
                Err(e) => {
                    proof {
                        crate::ast::lemma_statements_view_take(statements@, i + 1);
                        lemma_stmts_prefix_err(fmap, deps, s0, all, i + 1);
                    }
                    failure = Some(e);
                    break;
                },
            }
        }
        match failure {
            Some(e) => Err(e),
            None => Ok(()),
        }
    }

    fn compile_statement(&mut self, statement: &Statement) -> (r: Result<(), CompileError>)
        requires
            old(self).inputs_wf(),
        ensures
            final(self).dependencies == old(self).dependencies,
            final(self).function_map == old(self).function_map,
            code_result(r, cs_stmt(old(self).function_map.entries(), old(self).dependencies@, old(self).state(), statement@), final(self).state()),
            old(self).instructions@.len() <= final(self).instructions@.len(),
        decreases *statement, 1nat,
    {
        match &statement.kind {
            StatementKind::VarDeclare { variable, value, .. } => {
                self.compile_expr(value)?;
                self.push_slot(variable, true);
            },
            StatementKind::VarAssign { variable, value } => {
                self.compile_expr(value)?;
                self.push_slot(variable, true);
            },
            StatementKind::Expr(expr) => {
                self.compile_expr(expr)?;
                self.push(Instruction::Pop);
            },
            StatementKind::If { condition, if_block, else_block } => {
                self.compile_if_statement(statement, condition, if_block, else_block)?;
            },
            StatementKind::While { condition, block } => {
                self.compile_while_statement(statement, condition, block)?;
            },
            StatementKind::Return(expr) => {
                self.compile_expr(expr)?;
                self.push(Instruction::Return);
            },
        }
        Ok(())
    }

    /// Compiles `if`: a conditional jump over the first block, and with an
    /// `else` block a jump over that block at the end of the first.
    fn compile_if_statement(&mut self, statement: &Statement, cond: &Expr, stmts: &Vec<Statement>, else_stmts: &Option<Vec<Statement>>) -> (r: Result<(), CompileError>)
        requires
            old(self).inputs_wf(),
            statement.kind == (StatementKind::If { condition: *cond, if_block: *stmts, else_block: *else_stmts }),
        ensures
            final(self).dependencies == old(self).dependencies,
            final(self).function_map == old(self).function_map,
            code_result(r, cs_stmt(old(self).function_map.entries(), old(self).dependencies@, old(self).state(), statement@), final(self).state()),
            old(self).instructions@.len() <= final(self).instructions@.len(),
        decreases *statement, 0nat,
    {
        self.compile_expr(cond)?;
        let cond_jump_index = self.instructions.len();
        self.push(Instruction::JumpIfFalse(0));
        self.compile_statements(stmts.as_slice())?;
        match else_stmts {
            Some(else_block) => {
                let if_jump_index = self.instructions.len();
                self.push(Instruction::Jump(0));
                let post_if_index = self.instructions.len();
                self.update_instruction_at(cond_jump_index, Instruction::JumpIfFalse(post_if_index as u32));
                self.compile_statements(else_block.as_slice())?;
                let post_else_index = self.instructions.len();
                self.update_instruction_at(if_jump_index, Instruction::Jump(post_else_index as u32));
            },
            None => {
                let post_if_index = self.instructions.len();
                self.update_instruction_at(cond_jump_index, Instruction::JumpIfFalse(post_if_index as u32));
            },
        }
        Ok(())
    }

    /// Compiles `while`: the condition, a conditional jump past the loop,
    /// the block, and a jump back to the condition.
    fn compile_while_statement(&mut self, statement: &Statement, cond: &Expr, stmts: &Vec<Statement>) -> (r: Result<(), CompileError>)
        requires
            old(self).inputs_wf(),
            statement.kind == (StatementKind::While { condition: *cond, block: *stmts }),
        ensures
            final(self).dependencies == old(self).dependencies,
            final(self).function_map == old(self).function_map,
            code_result(r, cs_stmt(old(self).function_map.entries(), old(self).dependencies@, old(self).state(), statement@), final(self).state()),
            old(self).instructions@.len() <= final(self).instructions@.len(),
        decreases *statement, 0nat,
    {
        let start_index = self.instructions.len();
        self.compile_expr(cond)?;
        let cond_jump_index = self.instructions.len();
        self.push(Instruction::JumpIfFalse(0));
        self.compile_statements(stmts.as_slice())?;
        self.push(Instruction::Jump(start_index as u32));
        let end_index = self.instructions.len();
        self.update_instruction_at(cond_jump_index, Instruction::JumpIfFalse(end_index as u32));
        Ok(())
    }

    /// Compiles a function with the given signature and body.
    fn compile(self, signiture: &SpannedFunctionSigniture, body: &[Statement]) -> (r: Result<InternalFunctionSource, CompileError>)
        requires
            self.inputs_wf(),
            self.state() == (CodeState { code: Seq::empty(), locals: Seq::empty() }),
        ensures
            match cf(self.function_map.entries(), self.dependencies@, sig_view(*signiture), statements_view(body@)) {
                Ok(src) => r matches Ok(x) && x@ == src,
                Err(e) => r matches Err(x) && x@ == e,
            },
            r matches Ok(x) ==> (slots_below(self.function_map.entries(), self.function_map.entries().len() as int)
                ==> code_in_bounds(x@.body, x@.slot_count as int, self.function_map.entries().len() as int)),
    {
        let ghost n = self.function_map.entries().len() as int;
        let ghost fmap = self.function_map.entries();
        let mut fc = self;
        fc.setup_parameters(&signiture.params);
        proof {
            if slots_below(fmap, n) {
                lemma_setup_params_bounds(CodeState { code: Seq::empty(), locals: Seq::empty() }, signiture.params@, n);
            }
        }
        let ghost s0 = fc.state();
        fc.compile_statements(body)?;
        proof {
            if slots_below(fmap, n) {
                lemma_cs_stmts_bounds(fmap, fc.dependencies@, s0, statements_view(body@), n);
            }
        }
        if matches!(signiture.return_type, DataType::Void) {
            let ghost s1 = fc.state();
            fc.push(Instruction::LoadConst(Value::Void));
            proof {
                if slots_below(fmap, n) {
                    lemma_emit_in_bounds(s1, InstructionView::LoadConst(ValueView::Void), n);
                }
            }
            let ghost s2 = fc.state();
            fc.push(Instruction::Return);
            proof {
                if slots_below(fmap, n) {
                    lemma_emit_in_bounds(s2, InstructionView::Return, n);
                }
            }
        }
        let slot_count = fc.locals.len();
        let source = InternalFunctionSource::new(slot_count, fc.instructions);
        assert(source@.body =~= fc.state().code);
        Ok(source)
    }
}

/// A signature without spans.
pub open spec fn unspanned(s: SigView) -> SignitureView {
    SignitureView { return_type: s.return_type, params: s.params.map_values(|p: SpannedParameter| (p.name@, p.data_type)) }
}

/// The compiled functions in slots `0` up to `n`, or the first error.
pub open spec fn compile_sources(ast: AstView, deps: Seq<(String, Module)>, n: int) -> Result<Seq<SourceView>, CompileErrorView>
    decreases n,
{
    if n <= 0 {
        Ok(Seq::empty())
    } else {
        match compile_sources(ast, deps, n - 1) {
            Err(x) => Err(x),
            Ok(srcs) => match cf(ast.entries, deps, ast.signitures[n - 1], ast.bodies[n - 1]) {
                Err(x) => Err(x),
                Ok(src) => Ok(srcs.push(src)),
            },
        }
    }
}

/// The module compiled from a tree: one compiled body per name in the
/// tree's map, the tree's signatures without spans, and `main`'s slot.
pub open spec fn spec_compile(ast: AstView, deps: Seq<(String, Module)>) -> Result<ModuleView, CompileErrorView> {
    let entries = ast.entries;
    match compile_sources(ast, deps, entries.len() as u32 as int) {
        Err(x) => Err(x),
        Ok(srcs) => Ok(ModuleView {
            main_slot: lookup(entries, "main"@),
            function_map: entries,
            signitures: ast.signitures.map_values(|s: SigView| unspanned(s)),
            sources: srcs,
        }),
    }
}

/// Compiles a checked tree into a module.
pub struct Compiler<'a> {
    sources: Vec<InternalFunctionSource>,
    ast: Ast,
    dependencies: &'a [(String, Module)],
}

impl<'a> Compiler<'a> {
    pub closed spec fn ast(&self) -> Ast {
        self.ast
    }

    pub closed spec fn deps(&self) -> Seq<(String, Module)> {
        self.dependencies@
    }

    /// The functions compiled so far.
    pub closed spec fn sources(&self) -> Seq<SourceView> {
        self.sources@.map_values(|s: InternalFunctionSource| s@)
    }

    pub fn new(ast: Ast, dependencies: &'a [(String, Module)]) -> (c: Self)
        ensures
            c.ast() == ast,
            c.deps() == dependencies@,
            c.sources() == Seq::<SourceView>::empty(),
    {
        let c = Self { sources: Vec::new(), ast, dependencies };
        assert(c.sources() =~= Seq::<SourceView>::empty());
        c
    }

    /// Compiles every function, in slot order, and builds the module.
    pub fn compile(self) -> (r: Result<Module, CompileError>)
        requires
            self.ast().wf(),
            deps_wf(self.deps()),
            self.ast().function_map().entries().len() <= self.ast().signitures().len(),
            self.sources() == Seq::<SourceView>::empty(),
        ensures
            match spec_compile(self.ast()@, self.deps()) {
                Ok(v) => r matches Ok(m) && m@ == v && m.wf(),
                Err(e) => r matches Err(x) && x@ == e,
            },
            r matches Ok(m) ==> (slots_below(self.ast()@.entries, self.ast()@.entries.len() as int)
                && self.ast()@.entries.len() <= u32::MAX ==> code_wf(m@.sources)),
    {
        let mut c = self;
        let count = c.ast.function_count();
        let ghost ast = c.ast@;
        let ghost deps = c.dependencies@;
        let mut slot: u32 = 0;
        let mut failure: Option<CompileError> = None;
        while slot < count
            invariant_except_break
                failure is None,
                c.ast@ == ast,
                c.dependencies@ == deps,
                c.ast.wf(),
                deps_wf(deps),
                count as int <= ast.signitures.len(),
                count as int == ast.entries.len() as u32 as int,
                slot <= count,
                compile_sources(ast, deps, slot as int) == Ok::<Seq<SourceView>, CompileErrorView>(c.sources()),
                slots_below(ast.entries, ast.entries.len() as int) ==> forall|f: int| 0 <= f < c.sources().len()
                    ==> code_in_bounds(#[trigger] c.sources()[f].body, c.sources()[f].slot_count as int, ast.entries.len() as int),
            ensures
                c.ast@ == ast,
                c.ast.wf(),
                c.dependencies@ == deps,
                failure matches Some(e) ==> compile_sources(ast, deps, count as int) == Err::<Seq<SourceView>, CompileErrorView>(e@),
                failure is None ==> compile_sources(ast, deps, count as int) == Ok::<Seq<SourceView>, CompileErrorView>(c.sources()),
                failure is None && slots_below(ast.entries, ast.entries.len() as int) ==> forall|f: int| 0 <= f < c.sources().len()
                    ==> code_in_bounds(#[trigger] c.sources()[f].body, c.sources()[f].slot_count as int, ast.entries.len() as int),
            decreases count - slot,
        {
            let ghost before = c.sources();
            match c.compile_function(slot) {
                Ok(()) => {
                    proof {
                        if slots_below(ast.entries, ast.entries.len() as int) {
                            assert forall|f: int| 0 <= f < c.sources().len() implies code_in_bounds(
                                #[trigger] c.sources()[f].body,
                                c.sources()[f].slot_count as int,
                                ast.entries.len() as int,
                            ) by {
                                if f < before.len() {
                                    assert(c.sources()[f] == before[f]);
                                }
                            }
                        }
                    }
                    slot = slot + 1;
                },
                Err(e) => {
                    proof {
                        lemma_sources_prefix_err(ast, deps, slot + 1, count as int);
                    }
                    failure = Some(e);
                    break;
                },
            }
        }
        if let Some(e) = failure {
            return Err(e);
        }
        let ghost srcs = c.sources();
        proof {
            if slots_below(ast.entries, ast.entries.len() as int) && ast.entries.len() <= u32::MAX {
                lemma_compile_sources_len(ast, deps, count as int);
                assert(srcs.len() == ast.entries.len());
                assert forall|f: int, k: int| 0 <= f < srcs.len() && 0 <= k < srcs[f].body.len() implies instruction_wf(
                    srcs,
                    srcs[f].slot_count,
                    #[trigger] srcs[f].body[k],
                ) by {
                    assert(code_in_bounds(srcs[f].body, srcs[f].slot_count as int, ast.entries.len() as int));
                    assert(instr_in_bounds(srcs[f].body[k], srcs[f].slot_count as int, ast.entries.len() as int));
                }
            }
        }
        let (function_map, spanned_function_signitures, _, _) = c.ast.deconstruct();
        let mut function_signitures: Vec<InternalFunctionSigniture> = Vec::new();
        let mut i: usize = 0;
        while i < spanned_function_signitures.len()
            invariant
                i <= spanned_function_signitures@.len(),
                spanned_function_signitures@.map_values(|s: SpannedFunctionSigniture| sig_view(s)) == ast.signitures,
                function_signitures@.len() == i,
                forall|j: int| 0 <= j < i ==> (#[trigger] function_signitures@[j])@ == unspanned(ast.signitures[j]),
            decreases spanned_function_signitures@.len() - i,
        {
            let s = &spanned_function_signitures[i];
            function_signitures.push(InternalFunctionSigniture::from_spanned_params(s.return_type.duplicate(), &s.params));
            i = i + 1;
        }
        proof {
            reveal_strlit("main");
        }
        let main_slot = function_map.get("main");
        let module = Module::new(main_slot, function_map, function_signitures, c.sources);
        assert(crate::bytecode::views(module.signitures()) =~= ast.signitures.map_values(|s: SigView| unspanned(s)));
        assert(crate::bytecode::views(module.sources()) =~= srcs);
        Ok(module)
    }

    fn compile_function(&mut self, slot: u32) -> (r: Result<(), CompileError>)
        requires
            old(self).ast().wf(),
            deps_wf(old(self).deps()),
            (slot as int) < old(self).ast().signitures().len(),
        ensures
            final(self).ast == old(self).ast,
            final(self).dependencies == old(self).dependencies,
            match cf(old(self).ast()@.entries, old(self).deps(), old(self).ast()@.signitures[slot as int], old(self).ast()@.bodies[slot as int]) {
                Ok(src) => r is Ok && final(self).sources() == old(self).sources().push(src),
                Err(e) => r matches Err(x) && x@ == e,
            },
            r is Ok && slots_below(old(self).ast()@.entries, old(self).ast()@.entries.len() as int) ==> code_in_bounds(
                final(self).sources().last().body,
                final(self).sources().last().slot_count as int,
                old(self).ast()@.entries.len() as int,
            ),
    {
        let signiture = self.ast.get_function_signiture_by_slot(slot).unwrap();
        let body = self.ast.get_function_body_by_slot(slot).unwrap();
        let function_map = self.ast.get_function_map();
        let fc = FunctionCompiler::new(self.dependencies, function_map);
        let source = fc.compile(signiture, body)?;
        self.sources.push(source);
        assert(self.sources() =~= old(self).sources().push(source@));
        Ok(())
    }
}

/// Compiling the functions up to `n` gives `n` of them.
proof fn lemma_compile_sources_len(ast: AstView, deps: Seq<(String, Module)>, n: int)
    requires
        n >= 0,
    ensures
        compile_sources(ast, deps, n) matches Ok(srcs) ==> srcs.len() == n,
    decreases n,
{
    if n > 0 {
        lemma_compile_sources_len(ast, deps, n - 1);
    }
}

/// A checked expression compiles, whatever was emitted before it.
proof fn lemma_expr_compiles(ast: AstView, deps: Seq<(String, Module)>, scopes: Scopes, e: ExprView, fmap: Seq<(Seq<char>, u32)>, st: CodeState)
    requires
        tc_expr(ast, deps, scopes, e) is Ok,
    ensures
        ce_expr(fmap, deps, st, e) is Ok,
    decreases e,
{
    match e.kind {
        ExprKindView::BinaryOp(op, l, r) => {
            lemma_expr_compiles(ast, deps, scopes, *l, fmap, st);
            lemma_expr_compiles(ast, deps, scopes, *r, fmap, ce_expr(fmap, deps, st, *l)->Ok_0);
        },
        ExprKindView::UnaryOp(op, x) => {
            lemma_expr_compiles(ast, deps, scopes, *x, fmap, st);
        },
        ExprKindView::FunctionCall { func_name, args } => {
            lemma_args_compile(ast, deps, scopes, args, fmap, st);
        },
        ExprKindView::ForeignFunctionCall { module_name, func_name, args } => {
            lemma_args_compile(ast, deps, scopes, args, fmap, st);
        },
        ExprKindView::BuiltinFunctionCall { function, args } => {
            lemma_args_compile(ast, deps, scopes, args, fmap, st);
        },
        ExprKindView::MethodCall { callee, method_name, args } => {
            lemma_args_compile(ast, deps, scopes, args, fmap, st);
            lemma_expr_compiles(ast, deps, scopes, *callee, fmap, ce_args(fmap, deps, st, args)->Ok_0);
        },
        _ => {},
    }
}

proof fn lemma_args_compile(ast: AstView, deps: Seq<(String, Module)>, scopes: Scopes, args: Seq<ExprView>, fmap: Seq<(Seq<char>, u32)>, st: CodeState)
    requires
        tc_args(ast, deps, scopes, args) is Ok,
    ensures
        ce_args(fmap, deps, st, args) is Ok,
    decreases args,
{
    if args.len() > 0 {
        lemma_args_compile(ast, deps, scopes, args.drop_last(), fmap, st);
        lemma_expr_compiles(ast, deps, scopes, args.last(), fmap, ce_args(fmap, deps, st, args.drop_last())->Ok_0);
    }
}

/// A checked statement compiles, whatever was emitted before it.
proof fn lemma_stmt_compiles(
    ast: AstView,
    deps: Seq<(String, Module)>,
    scopes: Scopes,
    s: StatementView,
    ret: DataType,
    fmap: Seq<(Seq<char>, u32)>,
    st: CodeState,
)
    requires
        tc_stmt(ast, deps, scopes, s, ret) is Ok,
    ensures
        cs_stmt(fmap, deps, st, s) is Ok,
    decreases s,
{
    match s.kind {
        StatementKindView::VarDeclare { variable, value, .. } => {
            lemma_expr_compiles(ast, deps, scopes, value, fmap, st);
        },
        StatementKindView::VarAssign { variable, value } => {
            lemma_expr_compiles(ast, deps, scopes, value, fmap, st);
        },
        StatementKindView::Expr(e) => {
            lemma_expr_compiles(ast, deps, scopes, e, fmap, st);
        },
        StatementKindView::Return(e) => {
            lemma_expr_compiles(ast, deps, scopes, e, fmap, st);
        },
        StatementKindView::If { condition, if_block, else_block } => {
            lemma_expr_compiles(ast, deps, scopes, condition, fmap, st);
            let s1 = ce_expr(fmap, deps, st, condition)->Ok_0;
            let cond_jump = s1.code.len() as int;
            let e1 = emit(s1, InstructionView::JumpIfFalse(0));
            lemma_stmts_compile(ast, deps, scopes, if_block, ret, fmap, e1);
            let sc = tc_stmts(ast, deps, scopes, if_block, ret)->Ok_0;
            let s2 = cs_stmts(fmap, deps, e1, if_block)->Ok_0;
            if let Some(b) = else_block {
                let s3 = emit(s2, InstructionView::Jump(0));
                let s4 = patch(s3, cond_jump, InstructionView::JumpIfFalse(s3.code.len() as u32));
                lemma_stmts_compile(ast, deps, sc, b, ret, fmap, s4);
            }
        },
        StatementKindView::While { condition, block } => {
            lemma_expr_compiles(ast, deps, scopes, condition, fmap, st);
            let s1 = ce_expr(fmap, deps, st, condition)->Ok_0;
            lemma_stmts_compile(ast, deps, scopes, block, ret, fmap, emit(s1, InstructionView::JumpIfFalse(0)));
        },
    }
}

proof fn lemma_stmts_compile(
    ast: AstView,
    deps: Seq<(String, Module)>,
    scopes: Scopes,
    ss: Seq<StatementView>,
    ret: DataType,
    fmap: Seq<(Seq<char>, u32)>,
    st: CodeState,
)
    requires
        tc_stmts(ast, deps, scopes, ss, ret) is Ok,
    ensures
        cs_stmts(fmap, deps, st, ss) is Ok,
    decreases ss,
{
    if ss.len() > 0 {
        lemma_stmts_compile(ast, deps, scopes, ss.drop_last(), ret, fmap, st);
        let sc = tc_stmts(ast, deps, scopes, ss.drop_last(), ret)->Ok_0;
        lemma_stmt_compiles(ast, deps, sc, ss.last(), ret, fmap, cs_stmts(fmap, deps, st, ss.drop_last())->Ok_0);
    }
}

/// Once the functions in slots `slot` up to `count` check, each of them compiles.
proof fn lemma_functions_compile(ast: AstView, deps: Seq<(String, Module)>, scopes: Scopes, slot: int, count: int, f: int)
    requires
        tc_functions(ast, deps, scopes, slot, count) is Ok,
        slot <= f < count,
    ensures
        cf(ast.entries, deps, ast.signitures[f], ast.bodies[f]) is Ok,
    decreases count - slot,
{
    let sc = tc_function(ast, deps, scopes, slot)->Ok_0;
    if f == slot {
        let sig = ast.signitures[f];
        let pc = tc_params(scopes.push(Seq::empty()), sig.params)->Ok_0;
        lemma_stmts_compile(
            ast,
            deps,
            pc,
            ast.bodies[f],
            sig.return_type,
            ast.entries,
            setup_params(CodeState { code: Seq::empty(), locals: Seq::empty() }, sig.params),
        );
    } else {
        lemma_functions_compile(ast, deps, sc, slot + 1, count, f);
    }
}

proof fn lemma_sources_compile(ast: AstView, deps: Seq<(String, Module)>, scopes: Scopes, count: int, n: int)
    requires
        tc_functions(ast, deps, scopes, 0, count) is Ok,
        n <= count,
    ensures
        compile_sources(ast, deps, n) is Ok,
    decreases n,
{
    if n > 0 {
        lemma_sources_compile(ast, deps, scopes, count, n - 1);
        lemma_functions_compile(ast, deps, scopes, 0, count, n - 1);
    }
}

/// A tree whose functions all type check compiles: the one error the
/// compiler reports, a call of a function that a dependency lacks, is
/// refused by the checker first.
pub proof fn lemma_checked_tree_compiles(ast: AstView, deps: Seq<(String, Module)>, scopes: Scopes)
    requires
        tc_functions(ast, deps, scopes, 0, ast.entries.len() as u32 as int) is Ok,
    ensures
        spec_compile(ast, deps) is Ok,
{
    lemma_sources_compile(ast, deps, scopes, ast.entries.len() as u32 as int, ast.entries.len() as u32 as int);
}

/// Once the functions up to `k` fail to compile, those up to `n` fail the same way.
proof fn lemma_sources_prefix_err(ast: AstView, deps: Seq<(String, Module)>, k: int, n: int)
    requires
        0 <= k <= n,
        compile_sources(ast, deps, k) is Err,
    ensures
        compile_sources(ast, deps, n) == compile_sources(ast, deps, k),
    decreases n - k,
{
    if n > k {
        lemma_sources_prefix_err(ast, deps, k, n - 1);
    }
}

} // verus!
