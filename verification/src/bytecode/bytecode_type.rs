use vstd::prelude::*;
use vstd::bytes::{spec_u32_from_le_bytes, spec_u32_to_le_bytes};
use crate::bytecode::serializable::{BytecodeSerializable, has_bytes, lemma_regroup, window};
use crate::text::{decimal, push_decimal, string_of};

verus! {

/// Whether a module file holds a program (with the slot of its entry
/// function) or a library.
#[derive(Debug, Clone, Copy, PartialEq, Eq, Structural)]
pub enum BytecodeType {
    Executable { main_slot: u32 },
    Library,
}

impl View for BytecodeType {
    type V = BytecodeType;

    open spec fn view(&self) -> BytecodeType {
        *self
    }
}

/// A program is written as the byte 0 and its main slot, a library as the byte 1.
impl BytecodeSerializable for BytecodeType {
    open spec fn spec_writable(v: BytecodeType) -> bool {
        true
    }

    open spec fn spec_bytecode(v: BytecodeType) -> Seq<u8> {
        match v {
            BytecodeType::Executable { main_slot } => seq![0u8] + spec_u32_to_le_bytes(main_slot),
            BytecodeType::Library => seq![1u8],
        }
    }

    open spec fn spec_read(bytes: Seq<u8>, cursor: int) -> Result<(BytecodeType, int), Seq<char>> {
        if !has_bytes(bytes, cursor, 1) {
            Err("Not enough bytes for BytecodeType"@)
        } else {
            let id = bytes[cursor];
            let c = cursor + 1;
            if id == 0 {
                if !has_bytes(bytes, c, 4) {
                    Err("Not enough bytes for Executable main_slot"@)
                } else {
                    Ok((BytecodeType::Executable { main_slot: spec_u32_from_le_bytes(window(bytes, c, 4)) }, c + 4))
                }
            } else if id == 1 {
                Ok((BytecodeType::Library, c))
            } else {
                Err("Unknown BytecodeType ID: "@ + decimal(id as nat))
            }
        }
    }

    fn write_bytecode(&self, buffer: &mut Vec<u8>) {
        match self {
            BytecodeType::Executable { main_slot } => {
                buffer.push(0);
                main_slot.write_bytecode(buffer);
                assert(buffer@ =~= old(buffer)@ + Self::spec_bytecode(*self));
            },
            BytecodeType::Library => {
                buffer.push(1);
            },
        }
    }

    fn from_bytecode(bytes: &[u8], cursor: &mut usize) -> (r: Result<BytecodeType, String>) {
        let type_id = match u8::from_bytecode(bytes, cursor) {
            Ok(id) => id,
            Err(_) => {
                return Err(string_of("Not enough bytes for BytecodeType"));
            },
        };
        if type_id == 0 {
            match u32::from_bytecode(bytes, cursor) {
                Ok(main_slot) => Ok(BytecodeType::Executable { main_slot }),
                Err(_) => Err(string_of("Not enough bytes for Executable main_slot")),
            }
        } else if type_id == 1 {
            Ok(BytecodeType::Library)
        } else {
            let mut m = string_of("Unknown BytecodeType ID: ");
            push_decimal(&mut m, type_id as u64);
            Err(m)
        }
    }

    proof fn lemma_roundtrip(v: BytecodeType, prefix: Seq<u8>, suffix: Seq<u8>) {
        let e = Self::spec_bytecode(v);
        assert((prefix + e + suffix)[prefix.len() as int] == e[0]);
        if let BytecodeType::Executable { main_slot } = v {
            lemma_regroup(prefix, seq![0u8], spec_u32_to_le_bytes(main_slot), suffix);
            <u32 as BytecodeSerializable>::lemma_roundtrip(main_slot, prefix + seq![0u8], suffix);
        }
    }
}

} // verus!
