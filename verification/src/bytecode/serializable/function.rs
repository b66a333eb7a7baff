use vstd::prelude::*;
use vstd::bytes::spec_u32_to_le_bytes;
use vstd::utf8::encode_utf8;
use crate::bytecode::serializable::{
    BytecodeSerializable, all_writable, lemma_regroup, lemma_seq_roundtrip, lemma_split3, read_vec,
    spec_read_seq, spec_seq_bytecode, views, write_all,
};
use crate::bytecode::serializable::data_type::readable_type;
use crate::data_type::DataType;
use crate::function::{InternalFunctionSigniture, InternalFunctionSource, SignitureView, SourceView};
use crate::instruction::Instruction;

verus! {

/// A named parameter: its name, then its type.
impl BytecodeSerializable for (String, DataType) {
    open spec fn spec_writable(v: (Seq<char>, DataType)) -> bool {
        encode_utf8(v.0).len() <= u32::MAX && readable_type(v.1)
    }

    open spec fn spec_bytecode(v: (Seq<char>, DataType)) -> Seq<u8> {
        <String as BytecodeSerializable>::spec_bytecode(v.0) + <DataType as BytecodeSerializable>::spec_bytecode(v.1)
    }

    open spec fn spec_read(bytes: Seq<u8>, cursor: int) -> Result<((Seq<char>, DataType), int), Seq<char>> {
        match <String as BytecodeSerializable>::spec_read(bytes, cursor) {
            Ok((name, c)) => match <DataType as BytecodeSerializable>::spec_read(bytes, c) {
                Ok((t, c2)) => Ok(((name, t), c2)),
                Err(m) => Err(m),
            },
            Err(m) => Err(m),
        }
    }

    fn write_bytecode(&self, buffer: &mut Vec<u8>) {
        self.0.write_bytecode(buffer);
        self.1.write_bytecode(buffer);
        assert(buffer@ =~= old(buffer)@ + Self::spec_bytecode(self@));
    }

    fn from_bytecode(bytes: &[u8], cursor: &mut usize) -> (r: Result<(String, DataType), String>) {
        let name = String::from_bytecode(bytes, cursor)?;
        let datatype = DataType::from_bytecode(bytes, cursor)?;
        Ok((name, datatype))
    }

    proof fn lemma_roundtrip(v: (Seq<char>, DataType), prefix: Seq<u8>, suffix: Seq<u8>) {
        let a = <String as BytecodeSerializable>::spec_bytecode(v.0);
        let b = <DataType as BytecodeSerializable>::spec_bytecode(v.1);
        lemma_regroup(prefix, a, b, suffix);
        <String as BytecodeSerializable>::lemma_roundtrip(v.0, prefix, b + suffix);
        <DataType as BytecodeSerializable>::lemma_roundtrip(v.1, prefix + a, suffix);
    }
}

/// A function-map entry: the name, then the slot.
impl BytecodeSerializable for (String, u32) {
    open spec fn spec_writable(v: (Seq<char>, u32)) -> bool {
        encode_utf8(v.0).len() <= u32::MAX
    }

    open spec fn spec_bytecode(v: (Seq<char>, u32)) -> Seq<u8> {
        <String as BytecodeSerializable>::spec_bytecode(v.0) + spec_u32_to_le_bytes(v.1)
    }

    open spec fn spec_read(bytes: Seq<u8>, cursor: int) -> Result<((Seq<char>, u32), int), Seq<char>> {
        match <String as BytecodeSerializable>::spec_read(bytes, cursor) {
            Ok((name, c)) => match <u32 as BytecodeSerializable>::spec_read(bytes, c) {
                Ok((t, c2)) => Ok(((name, t), c2)),
                Err(m) => Err(m),
            },
            Err(m) => Err(m),
        }
    }

    fn write_bytecode(&self, buffer: &mut Vec<u8>) {
        self.0.write_bytecode(buffer);
        self.1.write_bytecode(buffer);
        assert(buffer@ =~= old(buffer)@ + Self::spec_bytecode(self@));
    }

    fn from_bytecode(bytes: &[u8], cursor: &mut usize) -> (r: Result<(String, u32), String>) {
        let name = String::from_bytecode(bytes, cursor)?;
        let slot = u32::from_bytecode(bytes, cursor)?;
        Ok((name, slot))
    }

    proof fn lemma_roundtrip(v: (Seq<char>, u32), prefix: Seq<u8>, suffix: Seq<u8>) {
        let a = <String as BytecodeSerializable>::spec_bytecode(v.0);
        let b = spec_u32_to_le_bytes(v.1);
        lemma_regroup(prefix, a, b, suffix);
        <String as BytecodeSerializable>::lemma_roundtrip(v.0, prefix, b + suffix);
        <u32 as BytecodeSerializable>::lemma_roundtrip(v.1, prefix + a, suffix);
    }
}

/// A signature: the return type, the number of parameters, then each parameter.
impl BytecodeSerializable for InternalFunctionSigniture {
    open spec fn spec_writable(v: SignitureView) -> bool {
        &&& readable_type(v.return_type)
        &&& v.params.len() <= u32::MAX
        &&& all_writable::<(String, DataType)>(v.params)
    }

    open spec fn spec_bytecode(v: SignitureView) -> Seq<u8> {
        <DataType as BytecodeSerializable>::spec_bytecode(v.return_type) + spec_u32_to_le_bytes(v.params.len() as u32)
            + spec_seq_bytecode::<(String, DataType)>(v.params)
    }

    open spec fn spec_read(bytes: Seq<u8>, cursor: int) -> Result<(SignitureView, int), Seq<char>> {
        match <DataType as BytecodeSerializable>::spec_read(bytes, cursor) {
            Ok((t, c)) => match <usize as BytecodeSerializable>::spec_read(bytes, c) {
                Ok((n, c2)) => match spec_read_seq::<(String, DataType)>(bytes, c2, n as nat) {
                    Ok((ps, c3)) => Ok((SignitureView { return_type: t, params: ps }, c3)),
                    Err(m) => Err(m),
                },
                Err(m) => Err(m),
            },
            Err(m) => Err(m),
        }
    }

    fn write_bytecode(&self, buffer: &mut Vec<u8>) {
        assert(views(self.params@) =~= self@.params);
        self.return_type.write_bytecode(buffer);
        self.params.len().write_bytecode(buffer);
        write_all(self.params.as_slice(), buffer);
        assert(buffer@ =~= old(buffer)@ + Self::spec_bytecode(self@));
    }

    fn from_bytecode(bytes: &[u8], cursor: &mut usize) -> (r: Result<InternalFunctionSigniture, String>) {
        let return_type = DataType::from_bytecode(bytes, cursor)?;
        let param_count = usize::from_bytecode(bytes, cursor)?;
        let params = read_vec::<(String, DataType)>(bytes, cursor, param_count)?;
        let s = InternalFunctionSigniture { return_type, params };
        assert(views(s.params@) =~= s@.params);
        Ok(s)
    }

    proof fn lemma_roundtrip(v: SignitureView, prefix: Seq<u8>, suffix: Seq<u8>) {
        let a = <DataType as BytecodeSerializable>::spec_bytecode(v.return_type);
        let b = spec_u32_to_le_bytes(v.params.len() as u32);
        let c = spec_seq_bytecode::<(String, DataType)>(v.params);
        lemma_split3(prefix, a, b, c, suffix);
        assert(prefix + (a + b + c) + suffix =~= prefix + a + (b + c + suffix));
        assert(prefix + (a + b + c) + suffix =~= (prefix + a) + b + (c + suffix));
        <DataType as BytecodeSerializable>::lemma_roundtrip(v.return_type, prefix, b + c + suffix);
        <usize as BytecodeSerializable>::lemma_roundtrip(v.params.len() as usize, prefix + a, c + suffix);
        lemma_seq_roundtrip::<(String, DataType)>(v.params, prefix + a + b, suffix);
    }
}

/// A compiled function: its slot count, the number of instructions, then each instruction.
impl BytecodeSerializable for InternalFunctionSource {
    open spec fn spec_writable(v: SourceView) -> bool {
        &&& v.slot_count <= u32::MAX
        &&& v.body.len() <= u32::MAX
        &&& all_writable::<Instruction>(v.body)
    }

    open spec fn spec_bytecode(v: SourceView) -> Seq<u8> {
        spec_u32_to_le_bytes(v.slot_count as u32) + spec_u32_to_le_bytes(v.body.len() as u32)
            + spec_seq_bytecode::<Instruction>(v.body)
    }

    open spec fn spec_read(bytes: Seq<u8>, cursor: int) -> Result<(SourceView, int), Seq<char>> {
        match <usize as BytecodeSerializable>::spec_read(bytes, cursor) {
            Ok((slots, c)) => match <usize as BytecodeSerializable>::spec_read(bytes, c) {
                Ok((n, c2)) => match spec_read_seq::<Instruction>(bytes, c2, n as nat) {
                    Ok((body, c3)) => Ok((SourceView { slot_count: slots, body }, c3)),
                    Err(m) => Err(m),
                },
                Err(m) => Err(m),
            },
            Err(m) => Err(m),
        }
    }

    fn write_bytecode(&self, buffer: &mut Vec<u8>) {
        assert(views(self.body@) =~= self@.body);
        self.slot_count.write_bytecode(buffer);
        self.body.len().write_bytecode(buffer);
        write_all(self.body.as_slice(), buffer);
        assert(buffer@ =~= old(buffer)@ + Self::spec_bytecode(self@));
    }

    fn from_bytecode(bytes: &[u8], cursor: &mut usize) -> (r: Result<InternalFunctionSource, String>) {
        let slot_count = usize::from_bytecode(bytes, cursor)?;
        let instr_count = usize::from_bytecode(bytes, cursor)?;
        let body = read_vec::<Instruction>(bytes, cursor, instr_count)?;
        let s = InternalFunctionSource { slot_count, body };
        assert(views(s.body@) =~= s@.body);
        Ok(s)
    }

    proof fn lemma_roundtrip(v: SourceView, prefix: Seq<u8>, suffix: Seq<u8>) {
        let a = spec_u32_to_le_bytes(v.slot_count as u32);
        let b = spec_u32_to_le_bytes(v.body.len() as u32);
        let c = spec_seq_bytecode::<Instruction>(v.body);
        lemma_split3(prefix, a, b, c, suffix);
        assert(prefix + (a + b + c) + suffix =~= prefix + a + (b + c + suffix));
        assert(prefix + (a + b + c) + suffix =~= (prefix + a) + b + (c + suffix));
        <usize as BytecodeSerializable>::lemma_roundtrip(v.slot_count, prefix, b + c + suffix);
        <usize as BytecodeSerializable>::lemma_roundtrip(v.body.len() as usize, prefix + a, c + suffix);
        lemma_seq_roundtrip::<Instruction>(v.body, prefix + a + b, suffix);
    }
}

} // verus!
