mod bytecode_type;
mod fn_map;
mod header;
mod serializable;

pub use bytecode_type::BytecodeType;
pub use fn_map::{read_fn_map_bytecode, write_fn_map_bytecode, spec_map_from, lemma_map_from_distinct, lemma_fn_map_roundtrip};
pub use header::{BytecodeHeader, magic};
pub use serializable::{
    BytecodeSerializable, extend_bytes, has_bytes, window, lemma_window, lemma_regroup, lemma_split3,
    spec_seq_bytecode, spec_read_seq, all_writable, views, read_vec, write_all, lemma_seq_roundtrip,
};
pub use serializable::data_type::{DataTypeId, readable_type};
pub use serializable::instruction::InstructionId;
