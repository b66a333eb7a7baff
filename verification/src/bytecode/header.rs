use vstd::prelude::*;
use vstd::bytes::spec_u32_to_le_bytes;
use crate::bytecode::serializable::{BytecodeSerializable, has_bytes, lemma_regroup, lemma_window, window};
use crate::text::{decimal, push_decimal, string_of};

verus! {

/// The bytes every module file starts with.
pub open spec fn magic() -> Seq<u8> {
    seq![0x00u8, 0x08u8, 0x6du8, 0x76u8, 0x00u8, 0x62u8, 0x08u8]
}

/// The start of a module file: its format version, the slot of its `main`
/// function if it has one, and how many functions it holds.
#[derive(Debug, Clone, Copy, PartialEq, Eq, Structural)]
pub struct BytecodeHeader {
    pub version: u8,
    pub main_slot: Option<u32>,
    pub function_count: u32,
}

impl View for BytecodeHeader {
    type V = BytecodeHeader;

    open spec fn view(&self) -> BytecodeHeader {
        *self
    }
}

impl BytecodeHeader {
    /// The format version this library writes and reads.
    pub const CURRENT_VERSION: u8 = 1;

    pub fn new(main_slot: Option<u32>, function_count: u32) -> (h: Self)
        ensures
            h == (BytecodeHeader { version: 1, main_slot, function_count }),
    {
        BytecodeHeader { version: Self::CURRENT_VERSION, main_slot, function_count }
    }
}

fn check_magic(bytes: &[u8], cursor: usize) -> (b: bool)
    ensures
        b == (has_bytes(bytes@, cursor as int, 7) && window(bytes@, cursor as int, 7) == magic()),
{
    let l = bytes.len();
    if cursor > l || l - cursor < 7 {
        return false;
    }
    let expected: [u8; 7] = [0x00, 0x08, 0x6d, 0x76, 0x00, 0x62, 0x08];
    let mut i: usize = 0;
    while i < 7
        invariant
            i <= 7,
            cursor + 7 <= bytes@.len(),
            cursor + 7 <= l,
            expected@ == magic(),
            forall|k: int| 0 <= k < i ==> bytes@[cursor + k] == magic()[k],
        decreases 7 - i,
    {
        if bytes[cursor + i] != expected[i] {
            assert(window(bytes@, cursor as int, 7)[i as int] != magic()[i as int]);
            return false;
        }
        i = i + 1;
    }
    assert(window(bytes@, cursor as int, 7) =~= magic());
    true
}

/// A header: the magic bytes, the version byte, the optional main slot and the function count.
/// Only version 1 is read.
impl BytecodeSerializable for BytecodeHeader {
    open spec fn spec_writable(v: BytecodeHeader) -> bool {
        v.version == 1
    }

    open spec fn spec_bytecode(v: BytecodeHeader) -> Seq<u8> {
        magic() + seq![v.version] + <Option<u32> as BytecodeSerializable>::spec_bytecode(v.main_slot)
            + spec_u32_to_le_bytes(v.function_count)
    }

    open spec fn spec_read(bytes: Seq<u8>, cursor: int) -> Result<(BytecodeHeader, int), Seq<char>> {
        if !has_bytes(bytes, cursor, 7) {
            Err("Not enough bytes for header"@)
        } else if window(bytes, cursor, 7) != magic() {
            Err("Invalid magic number"@)
        } else {
            match <u8 as BytecodeSerializable>::spec_read(bytes, cursor + 7) {
                Ok((version, c)) => if version != 1 {
                    Err("Unsupported bytecode version: "@ + decimal(version as nat))
                } else {
                    match <Option<u32> as BytecodeSerializable>::spec_read(bytes, c) {
                        Ok((main_slot, c2)) => match <u32 as BytecodeSerializable>::spec_read(bytes, c2) {
                            Ok((function_count, c3)) => Ok((BytecodeHeader { version, main_slot, function_count }, c3)),
                            Err(m) => Err(m),
                        },
                        Err(m) => Err(m),
                    }
                },
                Err(m) => Err(m),
            }
        }
    }

    fn write_bytecode(&self, buffer: &mut Vec<u8>) {
        let magic_bytes: [u8; 7] = [0x00, 0x08, 0x6d, 0x76, 0x00, 0x62, 0x08];
        crate::bytecode::serializable::extend_bytes(buffer, magic_bytes.as_slice());
        self.version.write_bytecode(buffer);
        self.main_slot.write_bytecode(buffer);
        self.function_count.write_bytecode(buffer);
        assert(buffer@ =~= old(buffer)@ + Self::spec_bytecode(*self));
    }

    fn from_bytecode(bytes: &[u8], cursor: &mut usize) -> (r: Result<BytecodeHeader, String>) {
        let l = bytes.len();
        if *cursor > l || l - *cursor < 7 {
            return Err(string_of("Not enough bytes for header"));
        }
        if !check_magic(bytes, *cursor) {
            return Err(string_of("Invalid magic number"));
        }
        *cursor = *cursor + 7;
        let version = u8::from_bytecode(bytes, cursor)?;
        if version != Self::CURRENT_VERSION {
            let mut m = string_of("Unsupported bytecode version: ");
            push_decimal(&mut m, version as u64);
            return Err(m);
        }
        let main_slot = <Option<u32>>::from_bytecode(bytes, cursor)?;
        let function_count = u32::from_bytecode(bytes, cursor)?;
        Ok(BytecodeHeader { version, main_slot, function_count })
    }

    proof fn lemma_roundtrip(v: BytecodeHeader, prefix: Seq<u8>, suffix: Seq<u8>) {
        let m = magic();
        let ver = seq![v.version];
        let o = <Option<u32> as BytecodeSerializable>::spec_bytecode(v.main_slot);
        let n = spec_u32_to_le_bytes(v.function_count);
        let bytes = prefix + (m + ver + o + n) + suffix;
        assert(bytes =~= prefix + m + (ver + o + n + suffix));
        lemma_window(prefix, m, ver + o + n + suffix);
        assert(bytes =~= (prefix + m) + ver + (o + n + suffix));
        assert(bytes[prefix.len() + 7int] == v.version);
        assert(bytes =~= (prefix + m + ver) + o + (n + suffix));
        <Option<u32> as BytecodeSerializable>::lemma_roundtrip(v.main_slot, prefix + m + ver, n + suffix);
        assert(bytes =~= (prefix + m + ver + o) + n + suffix);
        <u32 as BytecodeSerializable>::lemma_roundtrip(v.function_count, prefix + m + ver + o, suffix);
    }
}

} // verus!
