//! Writing values as bytecode and reading them back.
use vstd::prelude::*;
use vstd::bytes::{spec_u32_from_le_bytes, spec_u32_to_le_bytes, spec_u64_from_le_bytes, spec_u64_to_le_bytes};
use vstd::utf8::{decode_utf8, encode_utf8, valid_utf8};
use crate::text::{decimal, push_decimal, push_str, string_of};

pub mod data_type;
pub mod value;
pub mod instruction;
pub mod function;

verus! {

broadcast use vstd::utf8::encode_utf8_decode_utf8, vstd::utf8::encode_utf8_valid_utf8;

/// A type with a bytecode form. `spec_bytecode` is the bytes that
/// `write_bytecode` appends, `spec_read` what `from_bytecode` reads at a
/// cursor: the value and the cursor after it, or the message it fails with.
pub trait BytecodeSerializable: Sized + View {
    /// Whether the value fits the format (lengths and counts fit in 32 bits).
    spec fn spec_writable(v: Self::V) -> bool;

    spec fn spec_bytecode(v: Self::V) -> Seq<u8>;

    spec fn spec_read(bytes: Seq<u8>, cursor: int) -> Result<(Self::V, int), Seq<char>>;

    /// Appends the bytecode form of `self` to `buffer`.
    fn write_bytecode(&self, buffer: &mut Vec<u8>)
        requires
            Self::spec_writable(self@),
        ensures
            final(buffer)@ == old(buffer)@ + Self::spec_bytecode(self@),
    ;

    /// Reads a value at `cursor` and moves the cursor past it.
    fn from_bytecode(bytes: &[u8], cursor: &mut usize) -> (r: Result<Self, String>)
        ensures
            match Self::spec_read(bytes@, *old(cursor) as int) {
                Ok((v, c)) => r matches Ok(x) && x@ == v && *final(cursor) as int == c,
                Err(m) => r matches Err(x) && x@ == m,
            },
    ;

    /// Reading back what was written gives the value back, whatever bytes
    /// stand before and after it.
    proof fn lemma_roundtrip(v: Self::V, prefix: Seq<u8>, suffix: Seq<u8>)
        requires
            Self::spec_writable(v),
        ensures
            Self::spec_read(prefix + Self::spec_bytecode(v) + suffix, prefix.len() as int) == Ok::<(Self::V, int), Seq<char>>(
                (v, (prefix.len() + Self::spec_bytecode(v).len()) as int),
            ),
    ;
}

/// Appends `bytes` to `buffer`.
pub fn extend_bytes(buffer: &mut Vec<u8>, bytes: &[u8])
    ensures
        final(buffer)@ == old(buffer)@ + bytes@,
{
    let mut i: usize = 0;
    while i < bytes.len()
        invariant
            i <= bytes@.len(),
            buffer@ == old(buffer)@ + bytes@.take(i as int),
        decreases bytes@.len() - i,
    {
        buffer.push(bytes[i]);
        i = i + 1;
        assert(buffer@ =~= old(buffer)@ + bytes@.take(i as int));
    }
    assert(bytes@.take(i as int) =~= bytes@);
}

/// Whether `n` bytes are left at `cursor`.
pub open spec fn has_bytes(bytes: Seq<u8>, cursor: int, n: int) -> bool {
    0 <= cursor && cursor + n <= bytes.len()
}

fn check_bytes(bytes: &[u8], cursor: usize, n: usize) -> (b: bool)
    ensures
        b == has_bytes(bytes@, cursor as int, n as int),
        b ==> cursor + n <= usize::MAX,
{
    let l = bytes.len();
    cursor <= l && l - cursor >= n
}

/// The bytes `s` hold from `start` on, for `n` bytes.
pub open spec fn window(s: Seq<u8>, start: int, n: int) -> Seq<u8> {
    s.subrange(start, start + n)
}

/// Looking at the middle of `prefix + mid + suffix` sees `mid`.
pub proof fn lemma_window(prefix: Seq<u8>, mid: Seq<u8>, suffix: Seq<u8>)
    ensures
        window(prefix + mid + suffix, prefix.len() as int, mid.len() as int) == mid,
        (prefix + mid + suffix).len() == prefix.len() + mid.len() + suffix.len(),
{
    assert(window(prefix + mid + suffix, prefix.len() as int, mid.len() as int) =~= mid);
}

/// `prefix + (x + a + b) + suffix` seen with each part as the middle one.
pub proof fn lemma_split3(prefix: Seq<u8>, x: Seq<u8>, a: Seq<u8>, b: Seq<u8>, suffix: Seq<u8>)
    ensures
        prefix + (x + a + b) + suffix == (prefix + x) + a + (b + suffix),
        prefix + (x + a + b) + suffix == (prefix + x + a) + b + suffix,
        prefix + (x + a + b) + suffix == prefix + x + (a + b + suffix),
{
    assert(prefix + (x + a + b) + suffix =~= (prefix + x) + a + (b + suffix));
    assert(prefix + (x + a + b) + suffix =~= (prefix + x + a) + b + suffix);
    assert(prefix + (x + a + b) + suffix =~= prefix + x + (a + b + suffix));
}

/// `prefix + (a + b) + suffix` seen as `(prefix + a) + b + suffix`, and as `prefix + a + (b + suffix)`.
pub proof fn lemma_regroup(prefix: Seq<u8>, a: Seq<u8>, b: Seq<u8>, suffix: Seq<u8>)
    ensures
        prefix + (a + b) + suffix == (prefix + a) + b + suffix,
        prefix + (a + b) + suffix == prefix + a + (b + suffix),
{
    assert(prefix + (a + b) + suffix =~= (prefix + a) + b + suffix);
    assert(prefix + (a + b) + suffix =~= prefix + a + (b + suffix));
}

/// The message for a read that runs past the end of the bytes.
pub open spec fn spec_end_of_bytecode() -> Seq<char> {
    "Unexpected end of bytecode"@
}

fn end_of_bytecode() -> (s: String)
    ensures
        s@ == spec_end_of_bytecode(),
{
    string_of("Unexpected end of bytecode")
}

impl BytecodeSerializable for u8 {
    open spec fn spec_writable(v: u8) -> bool {
        true
    }

    open spec fn spec_bytecode(v: u8) -> Seq<u8> {
        seq![v]
    }

    open spec fn spec_read(bytes: Seq<u8>, cursor: int) -> Result<(u8, int), Seq<char>> {
        if has_bytes(bytes, cursor, 1) {
            Ok((bytes[cursor], cursor + 1))
        } else {
            Err(spec_end_of_bytecode())
        }
    }

    fn write_bytecode(&self, buffer: &mut Vec<u8>) {
        buffer.push(*self);
    }

    fn from_bytecode(bytes: &[u8], cursor: &mut usize) -> (r: Result<u8, String>) {
        if check_bytes(bytes, *cursor, 1) {
            let value = bytes[*cursor];
            assert(value == bytes@[*old(cursor) as int]);
            *cursor = *cursor + 1;
            assert(Self::spec_read(bytes@, *old(cursor) as int) == Ok::<(u8, int), Seq<char>>((value, *cursor as int)));
            assert(value@ == value);
            Ok(value)
        } else {
            Err(end_of_bytecode())
        }
    }

    proof fn lemma_roundtrip(v: u8, prefix: Seq<u8>, suffix: Seq<u8>) {
        assert((prefix + seq![v] + suffix)[prefix.len() as int] == v);
    }
}

impl BytecodeSerializable for u32 {
    open spec fn spec_writable(v: u32) -> bool {
        true
    }

    open spec fn spec_bytecode(v: u32) -> Seq<u8> {
        spec_u32_to_le_bytes(v)
    }

    open spec fn spec_read(bytes: Seq<u8>, cursor: int) -> Result<(u32, int), Seq<char>> {
        if has_bytes(bytes, cursor, 4) {
            Ok((spec_u32_from_le_bytes(window(bytes, cursor, 4)), cursor + 4))
        } else {
            Err(spec_end_of_bytecode())
        }
    }

    fn write_bytecode(&self, buffer: &mut Vec<u8>) {
        let b = vstd::bytes::u32_to_le_bytes(*self);
        extend_bytes(buffer, b.as_slice());
    }

    fn from_bytecode(bytes: &[u8], cursor: &mut usize) -> (r: Result<u32, String>) {
        if !check_bytes(bytes, *cursor, 4) {
            return Err(end_of_bytecode());
        }
        let s = vstd::slice::slice_subrange(bytes, *cursor, *cursor + 4);
        let value = vstd::bytes::u32_from_le_bytes(s);
        *cursor = *cursor + 4;
        Ok(value)
    }

    proof fn lemma_roundtrip(v: u32, prefix: Seq<u8>, suffix: Seq<u8>) {
        vstd::bytes::lemma_auto_spec_u32_to_from_le_bytes();
        lemma_window(prefix, spec_u32_to_le_bytes(v), suffix);
    }
}

/// The bit pattern of a float: eight bytes, least significant first.
impl BytecodeSerializable for u64 {
    open spec fn spec_writable(v: u64) -> bool {
        true
    }

    open spec fn spec_bytecode(v: u64) -> Seq<u8> {
        spec_u64_to_le_bytes(v)
    }

    open spec fn spec_read(bytes: Seq<u8>, cursor: int) -> Result<(u64, int), Seq<char>> {
        if has_bytes(bytes, cursor, 8) {
            Ok((spec_u64_from_le_bytes(window(bytes, cursor, 8)), cursor + 8))
        } else {
            Err(spec_end_of_bytecode())
        }
    }

    fn write_bytecode(&self, buffer: &mut Vec<u8>) {
        let b = vstd::bytes::u64_to_le_bytes(*self);
        extend_bytes(buffer, b.as_slice());
    }

    fn from_bytecode(bytes: &[u8], cursor: &mut usize) -> (r: Result<u64, String>) {
        if !check_bytes(bytes, *cursor, 8) {
            return Err(end_of_bytecode());
        }
        let s = vstd::slice::slice_subrange(bytes, *cursor, *cursor + 8);
        let value = vstd::bytes::u64_from_le_bytes(s);
        *cursor = *cursor + 8;
        Ok(value)
    }

    proof fn lemma_roundtrip(v: u64, prefix: Seq<u8>, suffix: Seq<u8>) {
        vstd::bytes::lemma_auto_spec_u64_to_from_le_bytes();
        lemma_window(prefix, spec_u64_to_le_bytes(v), suffix);
    }
}

/// A length or count, written as four bytes; it must fit in 32 bits.
impl BytecodeSerializable for usize {
    open spec fn spec_writable(v: usize) -> bool {
        v <= u32::MAX
    }

    open spec fn spec_bytecode(v: usize) -> Seq<u8> {
        spec_u32_to_le_bytes(v as u32)
    }

    open spec fn spec_read(bytes: Seq<u8>, cursor: int) -> Result<(usize, int), Seq<char>> {
        match <u32 as BytecodeSerializable>::spec_read(bytes, cursor) {
            Ok((x, c)) => Ok((x as usize, c)),
            Err(m) => Err(m),
        }
    }

    fn write_bytecode(&self, buffer: &mut Vec<u8>) {
        let value = *self as u32;
        value.write_bytecode(buffer);
    }

    fn from_bytecode(bytes: &[u8], cursor: &mut usize) -> (r: Result<usize, String>) {
        let value = u32::from_bytecode(bytes, cursor)?;
        Ok(value as usize)
    }

    proof fn lemma_roundtrip(v: usize, prefix: Seq<u8>, suffix: Seq<u8>) {
        <u32 as BytecodeSerializable>::lemma_roundtrip(v as u32, prefix, suffix);
    }
}

/// A signed integer: its two's-complement bits as a `u32`.
impl BytecodeSerializable for i32 {
    open spec fn spec_writable(v: i32) -> bool {
        true
    }

    open spec fn spec_bytecode(v: i32) -> Seq<u8> {
        spec_u32_to_le_bytes(v as u32)
    }

    open spec fn spec_read(bytes: Seq<u8>, cursor: int) -> Result<(i32, int), Seq<char>> {
        match <u32 as BytecodeSerializable>::spec_read(bytes, cursor) {
            Ok((x, c)) => Ok((x as i32, c)),
            Err(m) => Err(m),
        }
    }

    fn write_bytecode(&self, buffer: &mut Vec<u8>) {
        let value = *self as u32;
        value.write_bytecode(buffer);
    }

    fn from_bytecode(bytes: &[u8], cursor: &mut usize) -> (r: Result<i32, String>) {
        let value = u32::from_bytecode(bytes, cursor)?;
        Ok(value as i32)
    }

    proof fn lemma_roundtrip(v: i32, prefix: Seq<u8>, suffix: Seq<u8>) {
        <u32 as BytecodeSerializable>::lemma_roundtrip(v as u32, prefix, suffix);
        assert((v as u32) as i32 == v) by (bit_vector);
    }
}

/// A boolean: one byte, 0 or 1; other bytes are refused.
impl BytecodeSerializable for bool {
    open spec fn spec_writable(v: bool) -> bool {
        true
    }

    open spec fn spec_bytecode(v: bool) -> Seq<u8> {
        seq![if v { 1u8 } else { 0u8 }]
    }

    open spec fn spec_read(bytes: Seq<u8>, cursor: int) -> Result<(bool, int), Seq<char>> {
        if !has_bytes(bytes, cursor, 1) {
            Err(spec_end_of_bytecode())
        } else if bytes[cursor] == 0 {
            Ok((false, cursor + 1))
        } else if bytes[cursor] == 1 {
            Ok((true, cursor + 1))
        } else {
            Err("Invalid boolean value: "@ + decimal(bytes[cursor] as nat))
        }
    }

    fn write_bytecode(&self, buffer: &mut Vec<u8>) {
        buffer.push(if *self { 1u8 } else { 0u8 });
    }

    fn from_bytecode(bytes: &[u8], cursor: &mut usize) -> (r: Result<bool, String>) {
        let byte = u8::from_bytecode(bytes, cursor)?;
        if byte == 0 {
            Ok(false)
        } else if byte == 1 {
            Ok(true)
        } else {
            let mut m = string_of("Invalid boolean value: ");
            push_decimal(&mut m, byte as u64);
            Err(m)
        }
    }

    proof fn lemma_roundtrip(v: bool, prefix: Seq<u8>, suffix: Seq<u8>) {
        let b: u8 = if v { 1u8 } else { 0u8 };
        assert((prefix + seq![b] + suffix)[prefix.len() as int] == b);
    }
}

/// The text with which std's `FromUtf8Error` describes why `bytes` are not
/// valid UTF-8 (where the first bad sequence starts and how long it is).
pub uninterp spec fn utf8_error_text(bytes: Seq<u8>) -> Seq<char>;

/// `std::string::String::from_utf8` on a copy of `bytes`: the text that the
/// bytes encode, or, where they are not valid UTF-8, the error's text as its
/// `Display` writes it. The contract states what std documents, over vstd's
/// model of UTF-8; the error text is named, not stated.
#[verifier::external_body]
fn string_from_utf8(bytes: &[u8]) -> (r: Result<String, String>)
    ensures
        r is Ok <==> valid_utf8(bytes@),
        r matches Ok(s) ==> s@ == decode_utf8(bytes@),
        r matches Err(m) ==> m@ == utf8_error_text(bytes@),
{
    match String::from_utf8(bytes.to_vec()) {
        Ok(s) => Ok(s),
        Err(e) => Err(format!("{}", e)),
    }
}

/// A string: its length in bytes, then its UTF-8 bytes.
impl BytecodeSerializable for String {
    open spec fn spec_writable(v: Seq<char>) -> bool {
        encode_utf8(v).len() <= u32::MAX
    }

    open spec fn spec_bytecode(v: Seq<char>) -> Seq<u8> {
        spec_u32_to_le_bytes(encode_utf8(v).len() as u32) + encode_utf8(v)
    }

    open spec fn spec_read(bytes: Seq<u8>, cursor: int) -> Result<(Seq<char>, int), Seq<char>> {
        match <usize as BytecodeSerializable>::spec_read(bytes, cursor) {
            Ok((len, c)) => if !has_bytes(bytes, c, len as int) {
                Err("Not enough bytes for string data"@)
            } else if !valid_utf8(window(bytes, c, len as int)) {
                Err("Invalid UTF-8 string: "@ + utf8_error_text(window(bytes, c, len as int)))
            } else {
                Ok((decode_utf8(window(bytes, c, len as int)), c + len))
            },
            Err(m) => Err(m),
        }
    }

    fn write_bytecode(&self, buffer: &mut Vec<u8>) {
        let b = self.as_str().as_bytes();
        b.len().write_bytecode(buffer);
        extend_bytes(buffer, b);
        assert(buffer@ =~= old(buffer)@ + Self::spec_bytecode(self@));
    }

    fn from_bytecode(bytes: &[u8], cursor: &mut usize) -> (r: Result<String, String>) {
        let len = usize::from_bytecode(bytes, cursor)?;
        if !check_bytes(bytes, *cursor, len) {
            return Err(string_of("Not enough bytes for string data"));
        }
        let s = vstd::slice::slice_subrange(bytes, *cursor, *cursor + len);
        match string_from_utf8(s) {
            Ok(text) => {
                *cursor = *cursor + len;
                Ok(text)
            },
            Err(e) => {
                let mut m = string_of("Invalid UTF-8 string: ");
                push_str(&mut m, e.as_str());
                Err(m)
            },
        }
    }

    proof fn lemma_roundtrip(v: Seq<char>, prefix: Seq<u8>, suffix: Seq<u8>) {
        let e = encode_utf8(v);
        let l = spec_u32_to_le_bytes(e.len() as u32);
        lemma_regroup(prefix, l, e, suffix);
        <usize as BytecodeSerializable>::lemma_roundtrip(e.len() as usize, prefix, e + suffix);
        lemma_window(prefix + l, e, suffix);
    }
}

/// An optional slot: a byte, 1 followed by the slot, or 0.
/// Any nonzero first byte is read as "present".
impl BytecodeSerializable for Option<u32> {
    open spec fn spec_writable(v: Option<u32>) -> bool {
        true
    }

    open spec fn spec_bytecode(v: Option<u32>) -> Seq<u8> {
        match v {
            Some(x) => seq![1u8] + spec_u32_to_le_bytes(x),
            None => seq![0u8],
        }
    }

    open spec fn spec_read(bytes: Seq<u8>, cursor: int) -> Result<(Option<u32>, int), Seq<char>> {
        match <u8 as BytecodeSerializable>::spec_read(bytes, cursor) {
            Ok((flag, c)) => if flag != 0 {
                match <u32 as BytecodeSerializable>::spec_read(bytes, c) {
                    Ok((x, c2)) => Ok((Some(x), c2)),
                    Err(m) => Err(m),
                }
            } else {
                Ok((None, c))
            },
            Err(m) => Err(m),
        }
    }

    fn write_bytecode(&self, buffer: &mut Vec<u8>) {
        match self {
            Some(value) => {
                buffer.push(1);
                value.write_bytecode(buffer);
                assert(buffer@ =~= old(buffer)@ + Self::spec_bytecode(self@));
            },
            None => {
                buffer.push(0);
            },
        }
    }

    fn from_bytecode(bytes: &[u8], cursor: &mut usize) -> (r: Result<Option<u32>, String>) {
        let is_some = u8::from_bytecode(bytes, cursor)?;
        if is_some != 0 {
            let value = u32::from_bytecode(bytes, cursor)?;
            Ok(Some(value))
        } else {
            Ok(None)
        }
    }

    proof fn lemma_roundtrip(v: Option<u32>, prefix: Seq<u8>, suffix: Seq<u8>) {
        match v {
            Some(x) => {
                let e = spec_u32_to_le_bytes(x);
                lemma_regroup(prefix, seq![1u8], e, suffix);
                assert((prefix + seq![1u8] + e + suffix)[prefix.len() as int] == 1u8);
                <u32 as BytecodeSerializable>::lemma_roundtrip(x, prefix + seq![1u8], suffix);
            },
            None => {
                assert((prefix + seq![0u8] + suffix)[prefix.len() as int] == 0u8);
            },
        }
    }
}

/// The bytecode of a sequence of values, one after the other (without a count).
pub open spec fn spec_seq_bytecode<T: BytecodeSerializable>(vs: Seq<T::V>) -> Seq<u8>
    decreases vs.len(),
{
    if vs.len() == 0 {
        Seq::empty()
    } else {
        T::spec_bytecode(vs[0]) + spec_seq_bytecode::<T>(vs.drop_first())
    }
}

/// Reading `n` values one after the other; the first failure is the result.
pub open spec fn spec_read_seq<T: BytecodeSerializable>(bytes: Seq<u8>, cursor: int, n: nat) -> Result<(Seq<T::V>, int), Seq<char>>
    decreases n,
{
    if n == 0 {
        Ok((Seq::empty(), cursor))
    } else {
        match T::spec_read(bytes, cursor) {
            Ok((v, c)) => match spec_read_seq::<T>(bytes, c, (n - 1) as nat) {
                Ok((rest, c2)) => Ok((seq![v] + rest, c2)),
                Err(m) => Err(m),
            },
            Err(m) => Err(m),
        }
    }
}

pub open spec fn all_writable<T: BytecodeSerializable>(vs: Seq<T::V>) -> bool {
    forall|i: int| 0 <= i < vs.len() ==> T::spec_writable(#[trigger] vs[i])
}

/// The views of the items of a vector.
pub open spec fn views<T: View>(v: Seq<T>) -> Seq<T::V> {
    v.map_values(|x: T| x@)
}

/// Reading `n` values after reading `k` of them is reading `k + n` values.
proof fn lemma_read_seq_step<T: BytecodeSerializable>(bytes: Seq<u8>, c0: int, acc: Seq<T::V>, c: int, n: nat, v: T::V, c1: int)
    requires
        n > 0,
        T::spec_read(bytes, c) == Ok::<(T::V, int), Seq<char>>((v, c1)),
    ensures
        (match spec_read_seq::<T>(bytes, c, n) {
            Ok((rest, c2)) => Ok((acc + rest, c2)),
            Err(m) => Err(m),
        }) == (match spec_read_seq::<T>(bytes, c1, (n - 1) as nat) {
            Ok((rest, c2)) => Ok((acc.push(v) + rest, c2)),
            Err(m) => Err::<(Seq<T::V>, int), Seq<char>>(m),
        }),
{
    match spec_read_seq::<T>(bytes, c1, (n - 1) as nat) {
        Ok((rest, c2)) => {
            assert(acc + (seq![v] + rest) =~= acc.push(v) + rest);
        },
        Err(m) => {},
    }
}

/// Reads `n` values at `cursor`.
pub fn read_vec<T: BytecodeSerializable>(bytes: &[u8], cursor: &mut usize, n: usize) -> (r: Result<Vec<T>, String>)
    ensures
        match spec_read_seq::<T>(bytes@, *old(cursor) as int, n as nat) {
            Ok((vs, c)) => r matches Ok(x) && views(x@) == vs && *final(cursor) as int == c,
            Err(m) => r matches Err(x) && x@ == m,
        },
{
    let mut out: Vec<T> = Vec::new();
    let mut i: usize = 0;
    let ghost c0 = *cursor as int;
    let mut failure: Option<String> = None;
    assert(views(out@) =~= Seq::<T::V>::empty());
    while i < n
        invariant_except_break
            i <= n,
            failure is None,
            spec_read_seq::<T>(bytes@, c0, n as nat) == (match spec_read_seq::<T>(bytes@, *cursor as int, (n - i) as nat) {
                Ok((rest, c2)) => Ok((views(out@) + rest, c2)),
                Err(m) => Err::<(Seq<T::V>, int), Seq<char>>(m),
            }),
        ensures
            failure is None ==> i == n && spec_read_seq::<T>(bytes@, c0, n as nat) == Ok::<(Seq<T::V>, int), Seq<char>>(
                (views(out@), *cursor as int),
            ),
            failure matches Some(e) ==> spec_read_seq::<T>(bytes@, c0, n as nat) == Err::<(Seq<T::V>, int), Seq<char>>(e@),
        decreases n - i,
    {
        let ghost c = *cursor as int;
        let ghost acc = views(out@);
        match T::from_bytecode(bytes, cursor) {
            Ok(x) => {
                proof {
                    lemma_read_seq_step::<T>(bytes@, c0, acc, c, (n - i) as nat, x@, *cursor as int);
                }
                out.push(x);
                assert(views(out@) =~= acc.push(x@));
                i = i + 1;
                if i == n {
                    assert(views(out@) + Seq::<T::V>::empty() =~= views(out@));
                }
            },
            Err(e) => {
                assert(spec_read_seq::<T>(bytes@, c, (n - i) as nat) == Err::<(Seq<T::V>, int), Seq<char>>(e@));
                failure = Some(e);
                break;
            },
        }
    }
    match failure {
        Some(e) => Err(e),
        None => Ok(out),
    }
}

/// Writes each item of `items`, one after the other.
pub fn write_all<T: BytecodeSerializable>(items: &[T], buffer: &mut Vec<u8>)
    requires
        all_writable::<T>(views(items@)),
    ensures
        final(buffer)@ == old(buffer)@ + spec_seq_bytecode::<T>(views(items@)),
{
    let mut i: usize = 0;
    let n = items.len();
    assert(views(items@).skip(0) =~= views(items@));
    while i < n
        invariant
            n == items@.len(),
            i <= n,
            all_writable::<T>(views(items@)),
            old(buffer)@ + spec_seq_bytecode::<T>(views(items@)) == buffer@ + spec_seq_bytecode::<T>(views(items@).skip(i as int)),
        decreases n - i,
    {
        let ghost before = buffer@;
        let ghost rest = views(items@).skip(i as int);
        assert(rest[0] == items@[i as int]@);
        assert(T::spec_writable(views(items@)[i as int]));
        items[i].write_bytecode(buffer);
        assert(rest.drop_first() =~= views(items@).skip(i + 1));
        assert(before + spec_seq_bytecode::<T>(rest) =~= buffer@ + spec_seq_bytecode::<T>(rest.drop_first()));
        i = i + 1;
    }
    assert(views(items@).skip(n as int) =~= Seq::<T::V>::empty());
    assert(buffer@ + Seq::<u8>::empty() =~= buffer@);
}

/// Reading back a written sequence gives it back.
pub proof fn lemma_seq_roundtrip<T: BytecodeSerializable>(vs: Seq<T::V>, prefix: Seq<u8>, suffix: Seq<u8>)
    requires
        all_writable::<T>(vs),
    ensures
        spec_read_seq::<T>(prefix + spec_seq_bytecode::<T>(vs) + suffix, prefix.len() as int, vs.len()) == Ok::<(Seq<T::V>, int), Seq<char>>(
            (vs, (prefix.len() + spec_seq_bytecode::<T>(vs).len()) as int),
        ),
    decreases vs.len(),
{
    if vs.len() == 0 {
        assert(vs =~= Seq::<T::V>::empty());
    } else {
        let e = T::spec_bytecode(vs[0]);
        let r = spec_seq_bytecode::<T>(vs.drop_first());
        lemma_regroup(prefix, e, r, suffix);
        T::lemma_roundtrip(vs[0], prefix, r + suffix);
        assert forall|i: int| 0 <= i < vs.drop_first().len() implies T::spec_writable(#[trigger] vs.drop_first()[i]) by {
            assert(vs.drop_first()[i] == vs[i + 1]);
        }
        lemma_seq_roundtrip::<T>(vs.drop_first(), prefix + e, suffix);
        assert(seq![vs[0]] + vs.drop_first() =~= vs);
    }
}

} // verus!
