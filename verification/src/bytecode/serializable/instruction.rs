use vstd::prelude::*;
use vstd::bytes::spec_u32_to_le_bytes;
use crate::ast::{BuiltinFunction, spec_builtin_name, spec_builtin_named};
use crate::bytecode::serializable::{BytecodeSerializable, lemma_regroup, lemma_split3};
use crate::bytecode::serializable::value::{spec_read_value, spec_value_bytecode, value_writable};
use crate::instruction::{Instruction, InstructionView};
use crate::text::{decimal, push_decimal, string_of};
use crate::value::Value;

verus! {

/// The byte that identifies each instruction in bytecode.
pub struct InstructionId;

impl InstructionId {
    pub const RETURN: u8 = 0;
    pub const ADD: u8 = 1;
    pub const SUB: u8 = 2;
    pub const MUL: u8 = 3;
    pub const DIV: u8 = 4;
    pub const MODULO: u8 = 5;
    pub const EQUAL: u8 = 6;
    pub const NOT_EQUAL: u8 = 7;
    pub const LESS: u8 = 8;
    pub const LESS_EQUAL: u8 = 9;
    pub const GREATER: u8 = 10;
    pub const GREATER_EQUAL: u8 = 11;
    pub const AND: u8 = 12;
    pub const OR: u8 = 13;
    pub const NOT: u8 = 14;
    pub const NEGATE: u8 = 15;
    pub const JUMP: u8 = 16;
    pub const JUMP_IF_FALSE: u8 = 17;
    pub const CALL: u8 = 18;
    pub const LOAD_COPY: u8 = 19;
    pub const STORE: u8 = 20;
    pub const POP: u8 = 21;
    pub const LOAD_CONST: u8 = 22;
    pub const FOREIGN_CALL: u8 = 23;
    pub const BUILTIN_CALL: u8 = 24;
    pub const METHOD_CALL: u8 = 25;
    pub const CREATE_LIST: u8 = 26;
    pub const INDEX_COPY: u8 = 27;
    pub const INDEX_REF: u8 = 28;
    pub const DEREF_COPY: u8 = 29;
    pub const LOAD_REF: u8 = 30;
    pub const INDEX_STORE: u8 = 31;
    pub const STORE_DEREF: u8 = 32;
}

pub open spec fn spec_instruction_id(i: InstructionView) -> u8 {
    match i {
        InstructionView::Return => 0,
        InstructionView::Add => 1,
        InstructionView::Sub => 2,
        InstructionView::Mul => 3,
        InstructionView::Div => 4,
        InstructionView::Modulo => 5,
        InstructionView::Equal => 6,
        InstructionView::NotEqual => 7,
        InstructionView::Less => 8,
        InstructionView::LessEqual => 9,
        InstructionView::Greater => 10,
        InstructionView::GreaterEqual => 11,
        InstructionView::And => 12,
        InstructionView::Or => 13,
        InstructionView::Not => 14,
        InstructionView::Negate => 15,
        InstructionView::Jump(..) => 16,
        InstructionView::JumpIfFalse(..) => 17,
        InstructionView::Call { .. } => 18,
        InstructionView::LoadCopy { .. } => 19,
        InstructionView::Store { .. } => 20,
        InstructionView::Pop => 21,
        InstructionView::LoadConst(..) => 22,
        InstructionView::ForeignCall { .. } => 23,
        InstructionView::BuiltinFunctionCall { .. } => 24,
        InstructionView::MethodCall { .. } => 25,
        InstructionView::CreateList { .. } => 26,
        InstructionView::IndexCopy { .. } => 27,
        InstructionView::IndexRef { .. } => 28,
        InstructionView::DerefCopy => 29,
        InstructionView::LoadRef { .. } => 30,
        InstructionView::IndexStore { .. } => 31,
        InstructionView::StoreDeref => 32,
    }
}

/// The operands of an instruction, as written after its id byte.
pub open spec fn spec_operands(i: InstructionView) -> Seq<u8> {
    match i {
        InstructionView::Jump(x0) => spec_u32_to_le_bytes(x0),
        InstructionView::JumpIfFalse(x0) => spec_u32_to_le_bytes(x0),
        InstructionView::Call { call_slot: x0 } => spec_u32_to_le_bytes(x0),
        InstructionView::LoadCopy { slot: x0 } => spec_u32_to_le_bytes(x0),
        InstructionView::Store { slot: x0 } => spec_u32_to_le_bytes(x0),
        InstructionView::LoadConst(x0) => spec_value_bytecode(x0),
        InstructionView::ForeignCall { module_name: x0, call_slot: x1 } => <String as BytecodeSerializable>::spec_bytecode(x0) + spec_u32_to_le_bytes(x1),
        InstructionView::BuiltinFunctionCall { function: x0, arg_count: x1 } => <String as BytecodeSerializable>::spec_bytecode(spec_builtin_name(x0)) + spec_u32_to_le_bytes(x1),
        InstructionView::MethodCall { method_name: x0, arg_count: x1 } => <String as BytecodeSerializable>::spec_bytecode(x0) + spec_u32_to_le_bytes(x1),
        InstructionView::CreateList { item_count: x0 } => spec_u32_to_le_bytes(x0),
        InstructionView::IndexCopy { depth: x0 } => spec_u32_to_le_bytes(x0),
        InstructionView::IndexRef { depth: x0 } => spec_u32_to_le_bytes(x0),
        InstructionView::LoadRef { slot: x0 } => spec_u32_to_le_bytes(x0),
        InstructionView::IndexStore { slot: x0, depth: x1 } => spec_u32_to_le_bytes(x0) + spec_u32_to_le_bytes(x1),
        _ => Seq::empty(),
    }
}

/// Whether an instruction fits the bytecode format.
pub open spec fn instruction_writable(i: InstructionView) -> bool {
    match i {
        InstructionView::LoadConst(v) => value_writable(v),
        InstructionView::ForeignCall { module_name, .. } => vstd::utf8::encode_utf8(module_name).len() <= u32::MAX,
        InstructionView::MethodCall { method_name, .. } => vstd::utf8::encode_utf8(method_name).len() <= u32::MAX,
        _ => true,
    }
}

pub open spec fn spec_instruction_bytecode(i: InstructionView) -> Seq<u8> {
    seq![spec_instruction_id(i)] + spec_operands(i)
}

pub open spec fn read_u32(bytes: Seq<u8>, c: int) -> Result<(u32, int), Seq<char>> {
    <u32 as BytecodeSerializable>::spec_read(bytes, c)
}

pub open spec fn read_string(bytes: Seq<u8>, c: int) -> Result<(Seq<char>, int), Seq<char>> {
    <String as BytecodeSerializable>::spec_read(bytes, c)
}

/// Reads the operands of the instruction with id `id` at `c`.
pub open spec fn spec_read_operands(id: u8, bytes: Seq<u8>, c: int) -> Result<(InstructionView, int), Seq<char>> {
    if id == 0 {
        Ok((InstructionView::Return, c))
    } else if id == 1 {
        Ok((InstructionView::Add, c))
    } else if id == 2 {
        Ok((InstructionView::Sub, c))
    } else if id == 3 {
        Ok((InstructionView::Mul, c))
    } else if id == 4 {
        Ok((InstructionView::Div, c))
    } else if id == 5 {
        Ok((InstructionView::Modulo, c))
    } else if id == 6 {
        Ok((InstructionView::Equal, c))
    } else if id == 7 {
        Ok((InstructionView::NotEqual, c))
    } else if id == 8 {
        Ok((InstructionView::Less, c))
    } else if id == 9 {
        Ok((InstructionView::LessEqual, c))
    } else if id == 10 {
        Ok((InstructionView::Greater, c))
    } else if id == 11 {
        Ok((InstructionView::GreaterEqual, c))
    } else if id == 12 {
        Ok((InstructionView::And, c))
    } else if id == 13 {
        Ok((InstructionView::Or, c))
    } else if id == 14 {
        Ok((InstructionView::Not, c))
    } else if id == 15 {
        Ok((InstructionView::Negate, c))
    } else if id == 16 {
        match read_u32(bytes, c) { Ok((x, c1)) => Ok((InstructionView::Jump(x), c1)), Err(m) => Err(m) }
    } else if id == 17 {
        match read_u32(bytes, c) { Ok((x, c1)) => Ok((InstructionView::JumpIfFalse(x), c1)), Err(m) => Err(m) }
    } else if id == 18 {
        match read_u32(bytes, c) { Ok((x, c1)) => Ok((InstructionView::Call { call_slot: x }, c1)), Err(m) => Err(m) }
    } else if id == 19 {
        match read_u32(bytes, c) { Ok((x, c1)) => Ok((InstructionView::LoadCopy { slot: x }, c1)), Err(m) => Err(m) }
    } else if id == 20 {
        match read_u32(bytes, c) { Ok((x, c1)) => Ok((InstructionView::Store { slot: x }, c1)), Err(m) => Err(m) }
    } else if id == 21 {
        Ok((InstructionView::Pop, c))
    } else if id == 22 {
        match spec_read_value(bytes, c) { Ok((x, c1)) => Ok((InstructionView::LoadConst(x), c1)), Err(m) => Err(m) }
    } else if id == 23 {
        match read_string(bytes, c) { Ok((x, c1)) => match read_u32(bytes, c1) { Ok((y, c2)) => Ok((InstructionView::ForeignCall { module_name: x, call_slot: y }, c2)), Err(m) => Err(m) }, Err(m) => Err(m) }
    } else if id == 24 {
        match read_string(bytes, c) { Ok((x, c1)) => match read_u32(bytes, c1) { Ok((y, c2)) => match spec_builtin_named(x) { Some(fun) => Ok((InstructionView::BuiltinFunctionCall { function: fun, arg_count: y }, c2)), None => Err("Not a builtin function"@) }, Err(m) => Err(m) }, Err(m) => Err(m) }
    } else if id == 25 {
        match read_string(bytes, c) { Ok((x, c1)) => match read_u32(bytes, c1) { Ok((y, c2)) => Ok((InstructionView::MethodCall { method_name: x, arg_count: y }, c2)), Err(m) => Err(m) }, Err(m) => Err(m) }
    } else if id == 26 {
        match read_u32(bytes, c) { Ok((x, c1)) => Ok((InstructionView::CreateList { item_count: x }, c1)), Err(m) => Err(m) }
    } else if id == 27 {
        match read_u32(bytes, c) { Ok((x, c1)) => Ok((InstructionView::IndexCopy { depth: x }, c1)), Err(m) => Err(m) }
    } else if id == 28 {
        match read_u32(bytes, c) { Ok((x, c1)) => Ok((InstructionView::IndexRef { depth: x }, c1)), Err(m) => Err(m) }
    } else if id == 29 {
        Ok((InstructionView::DerefCopy, c))
    } else if id == 30 {
        match read_u32(bytes, c) { Ok((x, c1)) => Ok((InstructionView::LoadRef { slot: x }, c1)), Err(m) => Err(m) }
    } else if id == 31 {
        match read_u32(bytes, c) { Ok((x, c1)) => match read_u32(bytes, c1) { Ok((y, c2)) => Ok((InstructionView::IndexStore { slot: x, depth: y }, c2)), Err(m) => Err(m) }, Err(m) => Err(m) }
    } else if id == 32 {
        Ok((InstructionView::StoreDeref, c))
    } else {
        Err("Unknown instruction ID: "@ + decimal(id as nat))
    }
}

pub open spec fn spec_read_instruction(bytes: Seq<u8>, cursor: int) -> Result<(InstructionView, int), Seq<char>> {
    match <u8 as BytecodeSerializable>::spec_read(bytes, cursor) {
        Ok((id, c)) => spec_read_operands(id, bytes, c),
        Err(m) => Err(m),
    }
}

fn unknown_instruction(id: u8) -> (m: String)
    ensures
        m@ == "Unknown instruction ID: "@ + decimal(id as nat),
{
    let mut m = string_of("Unknown instruction ID: ");
    push_decimal(&mut m, id as u64);
    m
}

proof fn lemma_builtin_name_roundtrip(f: BuiltinFunction)
    ensures
        spec_builtin_named(spec_builtin_name(f)) == Some(f),
        vstd::utf8::encode_utf8(spec_builtin_name(f)).len() <= u32::MAX,
{
    reveal_strlit("print");
    reveal_strlit("assert");
    reveal_strlit("format");
    assert("print"@[0] != "assert"@[0]);
    assert("print"@.len() != "format"@.len());
    assert("assert"@[0] != "format"@[0]);
    let n = spec_builtin_name(f);
    assert(n.len() <= 6);
    lemma_encode_len_bound(n);
}

/// A text of `n` characters takes at most `4 n` bytes in UTF-8.
pub proof fn lemma_encode_len_bound(s: Seq<char>)
    ensures
        vstd::utf8::encode_utf8(s).len() <= 4 * s.len(),
    decreases s.len(),
{
    if s.len() > 0 {
        lemma_encode_len_bound(s.drop_first());
    }
}

impl BytecodeSerializable for Instruction {
    open spec fn spec_writable(v: InstructionView) -> bool {
        instruction_writable(v)
    }

    open spec fn spec_bytecode(v: InstructionView) -> Seq<u8> {
        spec_instruction_bytecode(v)
    }

    open spec fn spec_read(bytes: Seq<u8>, cursor: int) -> Result<(InstructionView, int), Seq<char>> {
        spec_read_instruction(bytes, cursor)
    }

    fn write_bytecode(&self, buffer: &mut Vec<u8>) {
        let id: u8 = match self {
            Instruction::Return => InstructionId::RETURN,
            Instruction::Add => InstructionId::ADD,
            Instruction::Sub => InstructionId::SUB,
            Instruction::Mul => InstructionId::MUL,
            Instruction::Div => InstructionId::DIV,
            Instruction::Modulo => InstructionId::MODULO,
            Instruction::Equal => InstructionId::EQUAL,
            Instruction::NotEqual => InstructionId::NOT_EQUAL,
            Instruction::Less => InstructionId::LESS,
            Instruction::LessEqual => InstructionId::LESS_EQUAL,
            Instruction::Greater => InstructionId::GREATER,
            Instruction::GreaterEqual => InstructionId::GREATER_EQUAL,
            Instruction::And => InstructionId::AND,
            Instruction::Or => InstructionId::OR,
            Instruction::Not => InstructionId::NOT,
            Instruction::Negate => InstructionId::NEGATE,
            Instruction::Jump(..) => InstructionId::JUMP,
            Instruction::JumpIfFalse(..) => InstructionId::JUMP_IF_FALSE,
            Instruction::Call { .. } => InstructionId::CALL,
            Instruction::LoadCopy { .. } => InstructionId::LOAD_COPY,
            Instruction::Store { .. } => InstructionId::STORE,
            Instruction::Pop => InstructionId::POP,
            Instruction::LoadConst(..) => InstructionId::LOAD_CONST,
            Instruction::ForeignCall { .. } => InstructionId::FOREIGN_CALL,
            Instruction::BuiltinFunctionCall { .. } => InstructionId::BUILTIN_CALL,
            Instruction::MethodCall { .. } => InstructionId::METHOD_CALL,
            Instruction::CreateList { .. } => InstructionId::CREATE_LIST,
            Instruction::IndexCopy { .. } => InstructionId::INDEX_COPY,
            Instruction::IndexRef { .. } => InstructionId::INDEX_REF,
            Instruction::DerefCopy => InstructionId::DEREF_COPY,
            Instruction::LoadRef { .. } => InstructionId::LOAD_REF,
            Instruction::IndexStore { .. } => InstructionId::INDEX_STORE,
            Instruction::StoreDeref => InstructionId::STORE_DEREF,
        };
        id.write_bytecode(buffer);
        match self {
            Instruction::Jump(x0) => {
                x0.write_bytecode(buffer);
            },
            Instruction::JumpIfFalse(x0) => {
                x0.write_bytecode(buffer);
            },
            Instruction::Call { call_slot: x0 } => {
                x0.write_bytecode(buffer);
            },
            Instruction::LoadCopy { slot: x0 } => {
                x0.write_bytecode(buffer);
            },
            Instruction::Store { slot: x0 } => {
                x0.write_bytecode(buffer);
            },
            Instruction::LoadConst(x0) => {
                x0.write_bytecode(buffer);
            },
            Instruction::ForeignCall { module_name: x0, call_slot: x1 } => {
                x0.write_bytecode(buffer);
                x1.write_bytecode(buffer);
            },
            Instruction::BuiltinFunctionCall { function: x0, arg_count: x1 } => {
                proof { lemma_builtin_name_roundtrip(*x0); }
                let name = string_of(x0.as_str());
                name.write_bytecode(buffer);
                x1.write_bytecode(buffer);
            },
            Instruction::MethodCall { method_name: x0, arg_count: x1 } => {
                x0.write_bytecode(buffer);
                x1.write_bytecode(buffer);
            },
            Instruction::CreateList { item_count: x0 } => {
                x0.write_bytecode(buffer);
            },
            Instruction::IndexCopy { depth: x0 } => {
                x0.write_bytecode(buffer);
            },
            Instruction::IndexRef { depth: x0 } => {
                x0.write_bytecode(buffer);
            },
            Instruction::LoadRef { slot: x0 } => {
                x0.write_bytecode(buffer);
            },
            Instruction::IndexStore { slot: x0, depth: x1 } => {
                x0.write_bytecode(buffer);
                x1.write_bytecode(buffer);
            },
            _ => {},
        }
        assert(buffer@ =~= old(buffer)@ + spec_instruction_bytecode(self@));
    }

    fn from_bytecode(bytes: &[u8], cursor: &mut usize) -> (r: Result<Instruction, String>) {
        let id = u8::from_bytecode(bytes, cursor)?;
        if id == InstructionId::RETURN {
            Ok(Instruction::Return)
        } else if id == InstructionId::ADD {
            Ok(Instruction::Add)
        } else if id == InstructionId::SUB {
            Ok(Instruction::Sub)
        } else if id == InstructionId::MUL {
            Ok(Instruction::Mul)
        } else if id == InstructionId::DIV {
            Ok(Instruction::Div)
        } else if id == InstructionId::MODULO {
            Ok(Instruction::Modulo)
        } else if id == InstructionId::EQUAL {
            Ok(Instruction::Equal)
        } else if id == InstructionId::NOT_EQUAL {
            Ok(Instruction::NotEqual)
        } else if id == InstructionId::LESS {
            Ok(Instruction::Less)
        } else if id == InstructionId::LESS_EQUAL {
            Ok(Instruction::LessEqual)
        } else if id == InstructionId::GREATER {
            Ok(Instruction::Greater)
        } else if id == InstructionId::GREATER_EQUAL {
            Ok(Instruction::GreaterEqual)
        } else if id == InstructionId::AND {
            Ok(Instruction::And)
        } else if id == InstructionId::OR {
            Ok(Instruction::Or)
        } else if id == InstructionId::NOT {
            Ok(Instruction::Not)
        } else if id == InstructionId::NEGATE {
            Ok(Instruction::Negate)
        } else if id == InstructionId::JUMP {
            let x = u32::from_bytecode(bytes, cursor)?;
            Ok(Instruction::Jump(x))
        } else if id == InstructionId::JUMP_IF_FALSE {
            let x = u32::from_bytecode(bytes, cursor)?;
            Ok(Instruction::JumpIfFalse(x))
        } else if id == InstructionId::CALL {
            let x = u32::from_bytecode(bytes, cursor)?;
            Ok(Instruction::Call { call_slot: x })
        } else if id == InstructionId::LOAD_COPY {
            let x = u32::from_bytecode(bytes, cursor)?;
            Ok(Instruction::LoadCopy { slot: x })
        } else if id == InstructionId::STORE {
            let x = u32::from_bytecode(bytes, cursor)?;
            Ok(Instruction::Store { slot: x })
        } else if id == InstructionId::POP {
            Ok(Instruction::Pop)
        } else if id == InstructionId::LOAD_CONST {
            let x = Value::from_bytecode(bytes, cursor)?;
            Ok(Instruction::LoadConst(x))
        } else if id == InstructionId::FOREIGN_CALL {
            let x = String::from_bytecode(bytes, cursor)?;
            let y = u32::from_bytecode(bytes, cursor)?;
            Ok(Instruction::ForeignCall { module_name: x, call_slot: y })
        } else if id == InstructionId::BUILTIN_CALL {
            let x = String::from_bytecode(bytes, cursor)?;
            let y = u32::from_bytecode(bytes, cursor)?;
            let fun = BuiltinFunction::from_name(x.as_str())?;
            Ok(Instruction::BuiltinFunctionCall { function: fun, arg_count: y })
        } else if id == InstructionId::METHOD_CALL {
            let x = String::from_bytecode(bytes, cursor)?;
            let y = u32::from_bytecode(bytes, cursor)?;
            Ok(Instruction::MethodCall { method_name: x, arg_count: y })
        } else if id == InstructionId::CREATE_LIST {
            let x = u32::from_bytecode(bytes, cursor)?;
            Ok(Instruction::CreateList { item_count: x })
        } else if id == InstructionId::INDEX_COPY {
            let x = u32::from_bytecode(bytes, cursor)?;
            Ok(Instruction::IndexCopy { depth: x })
        } else if id == InstructionId::INDEX_REF {
            let x = u32::from_bytecode(bytes, cursor)?;
            Ok(Instruction::IndexRef { depth: x })
        } else if id == InstructionId::DEREF_COPY {
            Ok(Instruction::DerefCopy)
        } else if id == InstructionId::LOAD_REF {
            let x = u32::from_bytecode(bytes, cursor)?;
            Ok(Instruction::LoadRef { slot: x })
        } else if id == InstructionId::INDEX_STORE {
            let x = u32::from_bytecode(bytes, cursor)?;
            let y = u32::from_bytecode(bytes, cursor)?;
            Ok(Instruction::IndexStore { slot: x, depth: y })
        } else if id == InstructionId::STORE_DEREF {
            Ok(Instruction::StoreDeref)
        } else {
            Err(unknown_instruction(id))
        }
    }

    #[verifier::spinoff_prover]
    #[verifier::rlimit(60)]
    proof fn lemma_roundtrip(v: InstructionView, prefix: Seq<u8>, suffix: Seq<u8>) {
        let ops = spec_operands(v);
        let idb = seq![spec_instruction_id(v)];
        lemma_regroup(prefix, idb, ops, suffix);
        assert((prefix + spec_instruction_bytecode(v) + suffix)[prefix.len() as int] == spec_instruction_id(v));
        let p1 = prefix + idb;
        match v {
            InstructionView::Jump(x0) => {
                <u32 as BytecodeSerializable>::lemma_roundtrip(x0, p1, suffix);
            },
            InstructionView::JumpIfFalse(x0) => {
                <u32 as BytecodeSerializable>::lemma_roundtrip(x0, p1, suffix);
            },
            InstructionView::Call { call_slot: x0 } => {
                <u32 as BytecodeSerializable>::lemma_roundtrip(x0, p1, suffix);
            },
            InstructionView::LoadCopy { slot: x0 } => {
                <u32 as BytecodeSerializable>::lemma_roundtrip(x0, p1, suffix);
            },
            InstructionView::Store { slot: x0 } => {
                <u32 as BytecodeSerializable>::lemma_roundtrip(x0, p1, suffix);
            },
            InstructionView::LoadConst(x0) => {
                <Value as BytecodeSerializable>::lemma_roundtrip(x0, p1, suffix);
            },
            InstructionView::ForeignCall { module_name: x0, call_slot: x1 } => {
                lemma_split3(prefix, idb, <String as BytecodeSerializable>::spec_bytecode(x0), spec_u32_to_le_bytes(x1), suffix);
                <String as BytecodeSerializable>::lemma_roundtrip(x0, p1, spec_u32_to_le_bytes(x1) + suffix);
                <u32 as BytecodeSerializable>::lemma_roundtrip(x1, p1 + <String as BytecodeSerializable>::spec_bytecode(x0), suffix);
            },
            InstructionView::BuiltinFunctionCall { function: x0, arg_count: x1 } => {
                lemma_split3(prefix, idb, <String as BytecodeSerializable>::spec_bytecode(spec_builtin_name(x0)), spec_u32_to_le_bytes(x1), suffix);
                lemma_builtin_name_roundtrip(x0);
                <String as BytecodeSerializable>::lemma_roundtrip(spec_builtin_name(x0), p1, spec_u32_to_le_bytes(x1) + suffix);
                <u32 as BytecodeSerializable>::lemma_roundtrip(x1, p1 + <String as BytecodeSerializable>::spec_bytecode(spec_builtin_name(x0)), suffix);
            },
            InstructionView::MethodCall { method_name: x0, arg_count: x1 } => {
                lemma_split3(prefix, idb, <String as BytecodeSerializable>::spec_bytecode(x0), spec_u32_to_le_bytes(x1), suffix);
                <String as BytecodeSerializable>::lemma_roundtrip(x0, p1, spec_u32_to_le_bytes(x1) + suffix);
                <u32 as BytecodeSerializable>::lemma_roundtrip(x1, p1 + <String as BytecodeSerializable>::spec_bytecode(x0), suffix);
            },
            InstructionView::CreateList { item_count: x0 } => {
                <u32 as BytecodeSerializable>::lemma_roundtrip(x0, p1, suffix);
            },
            InstructionView::IndexCopy { depth: x0 } => {
                <u32 as BytecodeSerializable>::lemma_roundtrip(x0, p1, suffix);
            },
            InstructionView::IndexRef { depth: x0 } => {
                <u32 as BytecodeSerializable>::lemma_roundtrip(x0, p1, suffix);
            },
            InstructionView::LoadRef { slot: x0 } => {
                <u32 as BytecodeSerializable>::lemma_roundtrip(x0, p1, suffix);
            },
            InstructionView::IndexStore { slot: x0, depth: x1 } => {
                lemma_split3(prefix, idb, spec_u32_to_le_bytes(x0), spec_u32_to_le_bytes(x1), suffix);
                <u32 as BytecodeSerializable>::lemma_roundtrip(x0, p1, spec_u32_to_le_bytes(x1) + suffix);
                <u32 as BytecodeSerializable>::lemma_roundtrip(x1, p1 + spec_u32_to_le_bytes(x0), suffix);
            },
            _ => {},
        }
    }
}

} // verus!
