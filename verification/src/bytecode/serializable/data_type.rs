use vstd::prelude::*;
use crate::bytecode::serializable::{BytecodeSerializable, spec_end_of_bytecode};
use crate::data_type::DataType;
use crate::text::{decimal, push_decimal, string_of};

verus! {

/// The byte that identifies each type (and each kind of constant) in bytecode.
pub struct DataTypeId;

impl DataTypeId {
    pub const VOID: u8 = 0;
    pub const BOOL: u8 = 1;
    pub const INT: u8 = 2;
    pub const FLOAT: u8 = 3;
    pub const STRING: u8 = 4;
    pub const LIST: u8 = 5;
}

pub open spec fn spec_type_id(t: DataType) -> u8 {
    match t {
        DataType::Void => 0,
        DataType::Bool => 1,
        DataType::Int => 2,
        DataType::Float => 3,
        DataType::String => 4,
        DataType::List { .. } => 5,
    }
}

fn get_id(data_type: &DataType) -> (id: u8)
    ensures
        id == spec_type_id(*data_type),
{
    match data_type {
        DataType::Void => DataTypeId::VOID,
        DataType::Bool => DataTypeId::BOOL,
        DataType::Int => DataTypeId::INT,
        DataType::Float => DataTypeId::FLOAT,
        DataType::String => DataTypeId::STRING,
        DataType::List { .. } => DataTypeId::LIST,
    }
}

/// Whether a type reads back as written: a list is written as its id alone,
/// while reading a list reads an item type after the id, so lists do not.
pub open spec fn readable_type(t: DataType) -> bool {
    !(t is List)
}

/// A type is written as its id byte alone.
pub open spec fn spec_type_bytecode(t: DataType) -> Seq<u8> {
    seq![spec_type_id(t)]
}

pub open spec fn spec_read_type(bytes: Seq<u8>, cursor: int) -> Result<(DataType, int), Seq<char>>
    decreases bytes.len() - cursor,
{
    if !(0 <= cursor < bytes.len()) {
        Err(spec_end_of_bytecode())
    } else {
        let id = bytes[cursor];
        if id == 0 {
            Ok((DataType::Void, cursor + 1))
        } else if id == 1 {
            Ok((DataType::Bool, cursor + 1))
        } else if id == 2 {
            Ok((DataType::Int, cursor + 1))
        } else if id == 3 {
            Ok((DataType::Float, cursor + 1))
        } else if id == 4 {
            Ok((DataType::String, cursor + 1))
        } else if id == 5 {
            match spec_read_type(bytes, cursor + 1) {
                Ok((i, c)) => Ok((DataType::List { item_type: Some(Box::new(i)) }, c)),
                Err(m) => Err(m),
            }
        } else {
            Err("Unknown DataType id: "@ + decimal(id as nat))
        }
    }
}

fn read_type(bytes: &[u8], cursor: &mut usize) -> (r: Result<DataType, String>)
    ensures
        match spec_read_type(bytes@, *old(cursor) as int) {
            Ok((v, c)) => r matches Ok(x) && x == v && *final(cursor) as int == c,
            Err(m) => r matches Err(x) && x@ == m,
        },
    decreases bytes@.len() - *old(cursor),
{
    let id = u8::from_bytecode(bytes, cursor)?;
    if id == DataTypeId::VOID {
        Ok(DataType::Void)
    } else if id == DataTypeId::BOOL {
        Ok(DataType::Bool)
    } else if id == DataTypeId::INT {
        Ok(DataType::Int)
    } else if id == DataTypeId::FLOAT {
        Ok(DataType::Float)
    } else if id == DataTypeId::STRING {
        Ok(DataType::String)
    } else if id == DataTypeId::LIST {
        let item_type = read_type(bytes, cursor)?;
        Ok(DataType::List { item_type: Some(Box::new(item_type)) })
    } else {
        let mut m = string_of("Unknown DataType id: ");
        push_decimal(&mut m, id as u64);
        Err(m)
    }
}

fn write_type(t: &DataType, buffer: &mut Vec<u8>)
    ensures
        final(buffer)@ == old(buffer)@ + spec_type_bytecode(*t),
{
    get_id(t).write_bytecode(buffer);
}

proof fn lemma_type_roundtrip(t: DataType, prefix: Seq<u8>, suffix: Seq<u8>)
    requires
        readable_type(t),
    ensures
        spec_read_type(prefix + spec_type_bytecode(t) + suffix, prefix.len() as int) == Ok::<(DataType, int), Seq<char>>(
            (t, (prefix.len() + spec_type_bytecode(t).len()) as int),
        ),
{
    let bytes = prefix + spec_type_bytecode(t) + suffix;
    assert(bytes[prefix.len() as int] == spec_type_id(t));
}

/// A type: its id byte. Reading a list reads its item type after the id, so
/// a written list does not read back.
impl BytecodeSerializable for DataType {
    open spec fn spec_writable(v: DataType) -> bool {
        readable_type(v)
    }

    open spec fn spec_bytecode(v: DataType) -> Seq<u8> {
        spec_type_bytecode(v)
    }

    open spec fn spec_read(bytes: Seq<u8>, cursor: int) -> Result<(DataType, int), Seq<char>> {
        spec_read_type(bytes, cursor)
    }

    fn write_bytecode(&self, buffer: &mut Vec<u8>) {
        write_type(self, buffer);
    }

    fn from_bytecode(bytes: &[u8], cursor: &mut usize) -> (r: Result<DataType, String>) {
        read_type(bytes, cursor)
    }

    proof fn lemma_roundtrip(v: DataType, prefix: Seq<u8>, suffix: Seq<u8>) {
        lemma_type_roundtrip(v, prefix, suffix);
    }
}

} // verus!
