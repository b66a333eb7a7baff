use vstd::prelude::*;
use vstd::utf8::encode_utf8;
use crate::bytecode::serializable::{BytecodeSerializable, lemma_regroup};
use crate::bytecode::serializable::data_type::DataTypeId;
use crate::text::{decimal, push_decimal, string_of};
use crate::value::{Value, ValueView};

verus! {

/// Whether a value fits the bytecode format (a string's bytes fit in 32 bits).
pub open spec fn value_writable(v: ValueView) -> bool {
    match v {
        ValueView::Str(s) => encode_utf8(s).len() <= u32::MAX,
        _ => true,
    }
}

/// A constant: the id byte of its type, then its payload.
pub open spec fn spec_value_bytecode(v: ValueView) -> Seq<u8> {
    match v {
        ValueView::Void => seq![0u8],
        ValueView::Bool(b) => seq![1u8] + <bool as BytecodeSerializable>::spec_bytecode(b),
        ValueView::Int(i) => seq![2u8] + <i32 as BytecodeSerializable>::spec_bytecode(i),
        ValueView::Float(f) => seq![3u8] + <u64 as BytecodeSerializable>::spec_bytecode(f),
        ValueView::Str(s) => seq![4u8] + <String as BytecodeSerializable>::spec_bytecode(s),
    }
}

pub open spec fn spec_read_value(bytes: Seq<u8>, cursor: int) -> Result<(ValueView, int), Seq<char>> {
    match <u8 as BytecodeSerializable>::spec_read(bytes, cursor) {
        Ok((id, c)) => if id == 0 {
            Ok((ValueView::Void, c))
        } else if id == 1 {
            match <bool as BytecodeSerializable>::spec_read(bytes, c) {
                Ok((b, c2)) => Ok((ValueView::Bool(b), c2)),
                Err(m) => Err(m),
            }
        } else if id == 2 {
            match <i32 as BytecodeSerializable>::spec_read(bytes, c) {
                Ok((x, c2)) => Ok((ValueView::Int(x), c2)),
                Err(m) => Err(m),
            }
        } else if id == 3 {
            match <u64 as BytecodeSerializable>::spec_read(bytes, c) {
                Ok((x, c2)) => Ok((ValueView::Float(x), c2)),
                Err(m) => Err(m),
            }
        } else if id == 4 {
            match <String as BytecodeSerializable>::spec_read(bytes, c) {
                Ok((s, c2)) => Ok((ValueView::Str(s), c2)),
                Err(m) => Err(m),
            }
        } else {
            Err("Unknown type identifier: "@ + decimal(id as nat))
        },
        Err(m) => Err(m),
    }
}

impl BytecodeSerializable for Value {
    open spec fn spec_writable(v: ValueView) -> bool {
        value_writable(v)
    }

    open spec fn spec_bytecode(v: ValueView) -> Seq<u8> {
        spec_value_bytecode(v)
    }

    open spec fn spec_read(bytes: Seq<u8>, cursor: int) -> Result<(ValueView, int), Seq<char>> {
        spec_read_value(bytes, cursor)
    }

    fn write_bytecode(&self, buffer: &mut Vec<u8>) {
        match self {
            Value::Void => {
                buffer.push(DataTypeId::VOID);
            },
            Value::Bool(b) => {
                buffer.push(DataTypeId::BOOL);
                b.write_bytecode(buffer);
            },
            Value::Int(x) => {
                buffer.push(DataTypeId::INT);
                x.write_bytecode(buffer);
            },
            Value::Float(x) => {
                buffer.push(DataTypeId::FLOAT);
                x.write_bytecode(buffer);
            },
            Value::String(s) => {
                buffer.push(DataTypeId::STRING);
                s.write_bytecode(buffer);
            },
        }
        assert(buffer@ =~= old(buffer)@ + spec_value_bytecode(self@));
    }

    fn from_bytecode(bytes: &[u8], cursor: &mut usize) -> (r: Result<Value, String>) {
        let type_id = u8::from_bytecode(bytes, cursor)?;
        if type_id == DataTypeId::VOID {
            Ok(Value::Void)
        } else if type_id == DataTypeId::BOOL {
            let b = bool::from_bytecode(bytes, cursor)?;
            Ok(Value::Bool(b))
        } else if type_id == DataTypeId::INT {
            let x = i32::from_bytecode(bytes, cursor)?;
            Ok(Value::Int(x))
        } else if type_id == DataTypeId::FLOAT {
            let x = u64::from_bytecode(bytes, cursor)?;
            Ok(Value::Float(x))
        } else if type_id == DataTypeId::STRING {
            let s = String::from_bytecode(bytes, cursor)?;
            Ok(Value::String(s))
        } else {
            let mut m = string_of("Unknown type identifier: ");
            push_decimal(&mut m, type_id as u64);
            Err(m)
        }
    }

    proof fn lemma_roundtrip(v: ValueView, prefix: Seq<u8>, suffix: Seq<u8>) {
        let e = spec_value_bytecode(v);
        assert((prefix + e + suffix)[prefix.len() as int] == e[0]);
        match v {
            ValueView::Void => {},
            ValueView::Bool(b) => {
                lemma_regroup(prefix, seq![1u8], <bool as BytecodeSerializable>::spec_bytecode(b), suffix);
                <bool as BytecodeSerializable>::lemma_roundtrip(b, prefix + seq![1u8], suffix);
            },
            ValueView::Int(x) => {
                lemma_regroup(prefix, seq![2u8], <i32 as BytecodeSerializable>::spec_bytecode(x), suffix);
                <i32 as BytecodeSerializable>::lemma_roundtrip(x, prefix + seq![2u8], suffix);
            },
            ValueView::Float(x) => {
                lemma_regroup(prefix, seq![3u8], <u64 as BytecodeSerializable>::spec_bytecode(x), suffix);
                <u64 as BytecodeSerializable>::lemma_roundtrip(x, prefix + seq![3u8], suffix);
            },
            ValueView::Str(s) => {
                lemma_regroup(prefix, seq![4u8], <String as BytecodeSerializable>::spec_bytecode(s), suffix);
                <String as BytecodeSerializable>::lemma_roundtrip(s, prefix + seq![4u8], suffix);
            },
        }
    }
}

} // verus!
