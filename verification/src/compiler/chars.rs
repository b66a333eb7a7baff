//! Character classes and byte offsets used by the lexer.
use vstd::prelude::*;
use vstd::utf8::{encode_scalar, encode_utf8};

verus! {

broadcast use vstd::string::group_string_axioms;

/// The characters of `s`, in order.
pub fn chars_of(s: &str) -> (v: Vec<char>)
    ensures
        v@ == s@,
{
    let mut v: Vec<char> = Vec::new();
    for c in it: s.chars()
        invariant
            v@ == it.seq().take(it.index()),
            it.seq() == s@,
    {
        v.push(c);
        assert(v@ =~= it.seq().take(it.index() + 1));
    }
    assert(v@ =~= s@);
    v
}

/// How many bytes `c` takes in UTF-8.
pub open spec fn char_len(c: char) -> nat {
    encode_scalar(c as u32).len()
}

/// `char::len_utf8`: how many bytes the character takes in UTF-8.
pub fn len_utf8(c: char) -> (n: usize)
    ensures
        n == char_len(c),
        1 <= n <= 4,
{
    proof {
        vstd::utf8::char_is_scalar(c);
    }
    let v = c as u32;
    if v <= 0x7f {
        1
    } else if v <= 0x7ff {
        2
    } else if v <= 0xffff {
        3
    } else {
        4
    }
}

/// The byte offset of the `i`-th character of `chars`.
pub open spec fn offset(chars: Seq<char>, i: int) -> nat {
    encode_utf8(chars.take(i)).len()
}

/// UTF-8 encoding of a concatenation is the concatenation of the encodings.
pub proof fn lemma_encode_append(a: Seq<char>, b: Seq<char>)
    ensures
        encode_utf8(a + b) == encode_utf8(a) + encode_utf8(b),
    decreases a.len(),
{
    if a.len() == 0 {
        assert(a + b =~= b);
        assert(encode_utf8(a) =~= Seq::<u8>::empty());
        assert(Seq::<u8>::empty() + encode_utf8(b) =~= encode_utf8(b));
    } else {
        lemma_encode_append(a.drop_first(), b);
        assert((a + b).drop_first() =~= a.drop_first() + b);
        assert((a + b)[0] == a[0]);
        assert(encode_utf8(a + b) =~= encode_utf8(a) + encode_utf8(b));
    }
}

/// The offset of the next character is the offset of this one plus its length,
/// and offsets never pass the length of the whole encoding.
pub proof fn lemma_offset_step(chars: Seq<char>, i: int)
    requires
        0 <= i < chars.len(),
    ensures
        offset(chars, i + 1) == offset(chars, i) + char_len(chars[i]),
        offset(chars, i + 1) <= encode_utf8(chars).len(),
{
    assert(chars.take(i + 1) =~= chars.take(i) + seq![chars[i]]);
    lemma_encode_append(chars.take(i), seq![chars[i]]);
    assert(seq![chars[i]].drop_first() =~= Seq::<char>::empty());
    assert(encode_utf8(seq![chars[i]]) =~= encode_scalar(chars[i] as u32) + encode_utf8(Seq::<char>::empty()));
    assert(chars =~= chars.take(i + 1) + chars.skip(i + 1));
    lemma_encode_append(chars.take(i + 1), chars.skip(i + 1));
}

pub proof fn lemma_offset_bounds(chars: Seq<char>, i: int)
    requires
        0 <= i <= chars.len(),
    ensures
        offset(chars, i) <= encode_utf8(chars).len(),
        i == chars.len() ==> offset(chars, i) == encode_utf8(chars).len(),
{
    assert(chars =~= chars.take(i) + chars.skip(i));
    lemma_encode_append(chars.take(i), chars.skip(i));
    if i == chars.len() {
        assert(chars.take(i) =~= chars);
    }
}

pub proof fn lemma_offset_zero(chars: Seq<char>)
    ensures
        offset(chars, 0) == 0,
{
    assert(chars.take(0) =~= Seq::<char>::empty());
}

/// `char::is_whitespace`: the characters with the Unicode `White_Space` property.
pub open spec fn spec_is_whitespace(c: char) -> bool {
    let v = c as u32;
    ||| 0x09 <= v <= 0x0d
    ||| v == 0x20
    ||| v == 0x85
    ||| v == 0xa0
    ||| v == 0x1680
    ||| 0x2000 <= v <= 0x200a
    ||| v == 0x2028
    ||| v == 0x2029
    ||| v == 0x202f
    ||| v == 0x205f
    ||| v == 0x3000
}

pub fn is_whitespace(c: char) -> (b: bool)
    ensures
        b == spec_is_whitespace(c),
{
    let v = c as u32;
    (0x09 <= v && v <= 0x0d) || v == 0x20 || v == 0x85 || v == 0xa0 || v == 0x1680 || (0x2000
        <= v && v <= 0x200a) || v == 0x2028 || v == 0x2029 || v == 0x202f || v == 0x205f || v
        == 0x3000
}

pub open spec fn spec_is_digit(c: char) -> bool {
    '0' <= c <= '9'
}

pub fn is_ascii_digit(c: char) -> (b: bool)
    ensures
        b == spec_is_digit(c),
{
    '0' <= c && c <= '9'
}

pub open spec fn spec_is_alpha(c: char) -> bool {
    ('a' <= c <= 'z') || ('A' <= c <= 'Z')
}

pub fn is_ascii_alphabetic(c: char) -> (b: bool)
    ensures
        b == spec_is_alpha(c),
{
    ('a' <= c && c <= 'z') || ('A' <= c && c <= 'Z')
}

/// A character that may continue an identifier: an ASCII letter or digit, or `_`.
pub open spec fn spec_is_ident_char(c: char) -> bool {
    spec_is_alpha(c) || spec_is_digit(c) || c == '_'
}

pub fn is_ident_char(c: char) -> (b: bool)
    ensures
        b == spec_is_ident_char(c),
{
    is_ascii_alphabetic(c) || is_ascii_digit(c) || c == '_'
}

} // verus!
