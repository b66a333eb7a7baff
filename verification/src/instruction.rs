//! The instructions of the stack machine.
use vstd::prelude::*;
use crate::ast::BuiltinFunction;
use crate::value::{Value, ValueView};

verus! {

/// One instruction of a compiled function. Instructions work on a stack of
/// values shared by all running functions and on the running function's
/// numbered local slots.
#[derive(Debug)]
pub enum Instruction {
    /// Pops the top value into a local slot.
    Store { slot: u32 },
    StoreDeref,
    /// Pushes a copy of a local slot.
    LoadCopy { slot: u32 },
    LoadRef { slot: u32 },
    /// Pushes a constant.
    LoadConst(Value),
    Pop,
    Add,
    Sub,
    Mul,
    Div,
    Modulo,
    Equal,
    NotEqual,
    Less,
    LessEqual,
    Greater,
    GreaterEqual,
    And,
    Or,
    Not,
    Negate,
    /// Continues at the given index of the function's body.
    Jump(u32),
    /// Pops a boolean and continues at the given index if it is `false`.
    JumpIfFalse(u32),
    /// Runs the function in the given slot of the module; its result is pushed.
    Call { call_slot: u32 },
    ForeignCall { module_name: String, call_slot: u32 },
    /// Pops the result and leaves the running function.
    Return,
    BuiltinFunctionCall { function: BuiltinFunction, arg_count: u32 },
    MethodCall { method_name: String, arg_count: u32 },
    CreateList { item_count: u32 },
    IndexCopy { depth: u32 },
    IndexRef { depth: u32 },
    IndexStore { slot: u32, depth: u32 },
    DerefCopy,
}

/// The name that an earlier design of the machine gave this instruction set.
pub type OldInstruction = Instruction;

/// An instruction seen as plain data.
pub enum InstructionView {
    Store { slot: u32 },
    StoreDeref,
    LoadCopy { slot: u32 },
    LoadRef { slot: u32 },
    LoadConst(ValueView),
    Pop,
    Add,
    Sub,
    Mul,
    Div,
    Modulo,
    Equal,
    NotEqual,
    Less,
    LessEqual,
    Greater,
    GreaterEqual,
    And,
    Or,
    Not,
    Negate,
    Jump(u32),
    JumpIfFalse(u32),
    Call { call_slot: u32 },
    ForeignCall { module_name: Seq<char>, call_slot: u32 },
    Return,
    BuiltinFunctionCall { function: BuiltinFunction, arg_count: u32 },
    MethodCall { method_name: Seq<char>, arg_count: u32 },
    CreateList { item_count: u32 },
    IndexCopy { depth: u32 },
    IndexRef { depth: u32 },
    IndexStore { slot: u32, depth: u32 },
    DerefCopy,
}

impl View for Instruction {
    type V = InstructionView;

    open spec fn view(&self) -> InstructionView {
        match self {
            Instruction::Store { slot } => InstructionView::Store { slot: *slot },
            Instruction::LoadCopy { slot } => InstructionView::LoadCopy { slot: *slot },
            Instruction::LoadRef { slot } => InstructionView::LoadRef { slot: *slot },
            Instruction::LoadConst(v) => InstructionView::LoadConst(v@),
            Instruction::Jump(t) => InstructionView::Jump(*t),
            Instruction::JumpIfFalse(t) => InstructionView::JumpIfFalse(*t),
            Instruction::Call { call_slot } => InstructionView::Call { call_slot: *call_slot },
            Instruction::ForeignCall { module_name, call_slot } => InstructionView::ForeignCall {
                module_name: module_name@,
                call_slot: *call_slot,
            },
            Instruction::BuiltinFunctionCall { function, arg_count } => InstructionView::BuiltinFunctionCall {
                function: *function,
                arg_count: *arg_count,
            },
            Instruction::MethodCall { method_name, arg_count } => InstructionView::MethodCall {
                method_name: method_name@,
                arg_count: *arg_count,
            },
            Instruction::CreateList { item_count } => InstructionView::CreateList { item_count: *item_count },
            Instruction::IndexCopy { depth } => InstructionView::IndexCopy { depth: *depth },
            Instruction::IndexRef { depth } => InstructionView::IndexRef { depth: *depth },
            Instruction::IndexStore { slot, depth } => InstructionView::IndexStore { slot: *slot, depth: *depth },
            Instruction::StoreDeref => InstructionView::StoreDeref,
            Instruction::Pop => InstructionView::Pop,
            Instruction::Add => InstructionView::Add,
            Instruction::Sub => InstructionView::Sub,
            Instruction::Mul => InstructionView::Mul,
            Instruction::Div => InstructionView::Div,
            Instruction::Modulo => InstructionView::Modulo,
            Instruction::Equal => InstructionView::Equal,
            Instruction::NotEqual => InstructionView::NotEqual,
            Instruction::Less => InstructionView::Less,
            Instruction::LessEqual => InstructionView::LessEqual,
            Instruction::Greater => InstructionView::Greater,
            Instruction::GreaterEqual => InstructionView::GreaterEqual,
            Instruction::And => InstructionView::And,
            Instruction::Or => InstructionView::Or,
            Instruction::Not => InstructionView::Not,
            Instruction::Negate => InstructionView::Negate,
            Instruction::Return => InstructionView::Return,
            Instruction::DerefCopy => InstructionView::DerefCopy,
        }
    }
}

impl Clone for Instruction {
    fn clone(&self) -> (i: Self)
        ensures
            i == *self,
    {
        match self {
            Instruction::Store { slot } => Instruction::Store { slot: *slot },
            Instruction::LoadCopy { slot } => Instruction::LoadCopy { slot: *slot },
            Instruction::LoadRef { slot } => Instruction::LoadRef { slot: *slot },
            Instruction::LoadConst(v) => Instruction::LoadConst(v.clone()),
            Instruction::Jump(t) => Instruction::Jump(*t),
            Instruction::JumpIfFalse(t) => Instruction::JumpIfFalse(*t),
            Instruction::Call { call_slot } => Instruction::Call { call_slot: *call_slot },
            Instruction::ForeignCall { module_name, call_slot } => Instruction::ForeignCall {
                module_name: module_name.clone(),
                call_slot: *call_slot,
            },
            Instruction::BuiltinFunctionCall { function, arg_count } => Instruction::BuiltinFunctionCall {
                function: *function,
                arg_count: *arg_count,
            },
            Instruction::MethodCall { method_name, arg_count } => Instruction::MethodCall {
                method_name: method_name.clone(),
                arg_count: *arg_count,
            },
            Instruction::CreateList { item_count } => Instruction::CreateList { item_count: *item_count },
            Instruction::IndexCopy { depth } => Instruction::IndexCopy { depth: *depth },
            Instruction::IndexRef { depth } => Instruction::IndexRef { depth: *depth },
            Instruction::IndexStore { slot, depth } => Instruction::IndexStore { slot: *slot, depth: *depth },
            Instruction::StoreDeref => Instruction::StoreDeref,
            Instruction::Pop => Instruction::Pop,
            Instruction::Add => Instruction::Add,
            Instruction::Sub => Instruction::Sub,
            Instruction::Mul => Instruction::Mul,
            Instruction::Div => Instruction::Div,
            Instruction::Modulo => Instruction::Modulo,
            Instruction::Equal => Instruction::Equal,
            Instruction::NotEqual => Instruction::NotEqual,
            Instruction::Less => Instruction::Less,
            Instruction::LessEqual => Instruction::LessEqual,
            Instruction::Greater => Instruction::Greater,
            Instruction::GreaterEqual => Instruction::GreaterEqual,
            Instruction::And => Instruction::And,
            Instruction::Or => Instruction::Or,
            Instruction::Not => Instruction::Not,
            Instruction::Negate => Instruction::Negate,
            Instruction::Return => Instruction::Return,
            Instruction::DerefCopy => Instruction::DerefCopy,
        }
    }
}

} // verus!
