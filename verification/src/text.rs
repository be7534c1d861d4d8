//! The text a payload carries. On the wire a payload is the UTF-8 bytes of
//! the text followed by the protocol's two-null terminator; reading a
//! payload back strips the trailing null and whitespace bytes and decodes
//! the rest as UTF-8, substituting the replacement character for invalid
//! sequences.

use vstd::prelude::*;
use vstd::utf8::{decode_utf8, encode_scalar, encode_utf8, valid_utf8};

verus! {

/// True of a byte the protocol strips from the tail of a payload before
/// the payload is read as text: a null, or ASCII whitespace.
pub open spec fn is_pad_byte(b: u8) -> bool {
    b == 0 || b == 9 || b == 10 || b == 11 || b == 12 || b == 13 || b == 32
}

/// True of the characters those bytes decode to.
pub open spec fn is_pad_char(c: char) -> bool {
    let u = c as u32;
    u == 0 || u == 9 || u == 10 || u == 11 || u == 12 || u == 13 || u == 32
}

/// `bytes` without its trailing null and whitespace bytes.
pub open spec fn trim_bytes(bytes: Seq<u8>) -> Seq<u8>
    decreases bytes.len(),
{
    if bytes.len() == 0 {
        bytes
    } else if is_pad_byte(bytes.last()) {
        trim_bytes(bytes.drop_last())
    } else {
        bytes
    }
}

/// `chars` without its trailing null and whitespace characters.
pub open spec fn trim_chars(chars: Seq<char>) -> Seq<char>
    decreases chars.len(),
{
    if chars.len() == 0 {
        chars
    } else if is_pad_char(chars.last()) {
        trim_chars(chars.drop_last())
    } else {
        chars
    }
}

/// What lossy UTF-8 decoding makes of an invalid byte sequence. The result
/// depends on the bytes alone; this crate only names it.
pub uninterp spec fn lossy_of(bytes: Seq<u8>) -> Seq<char>;

/// The characters that a sequence of payload bytes reads as: valid UTF-8
/// reads as exactly the characters it encodes, anything else as what lossy
/// decoding substitutes for it.
pub open spec fn utf8_lossy(bytes: Seq<u8>) -> Seq<char> {
    if valid_utf8(bytes) {
        decode_utf8(bytes)
    } else {
        lossy_of(bytes)
    }
}

/// Relies on String::from_utf8_lossy: bytes that are valid UTF-8 decode to
/// exactly the characters they encode; on anything else the result is a
/// function of the bytes alone, which this crate names `lossy_of`.
#[verifier::external_body]
pub(crate) fn utf8_lossy_string(bytes: &[u8]) -> (r: String)
    ensures
        r@ == utf8_lossy(bytes@),
        !valid_utf8(bytes@) ==> r@ == lossy_of(bytes@),
{
    String::from(String::from_utf8_lossy(bytes))
}

/// True exactly when the protocol strips `b` from the tail of a payload.
pub fn pad_byte(b: u8) -> (r: bool)
    ensures
        r == is_pad_byte(b),
{
    b == 0 || b == 9 || b == 10 || b == 11 || b == 12 || b == 13 || b == 32
}

/// Copies `bytes` without its trailing null and whitespace bytes.
pub fn trim_trailing(bytes: &Vec<u8>) -> (r: Vec<u8>)
    ensures
        r@ == trim_bytes(bytes@),
{
    let mut end: usize = bytes.len();
    proof {
        assert(bytes@.subrange(0, bytes@.len() as int) =~= bytes@);
    }
    while end > 0 && pad_byte(bytes[end - 1])
        invariant
            end <= bytes@.len(),
            trim_bytes(bytes@) == trim_bytes(bytes@.subrange(0, end as int)),
        decreases end,
    {
        proof {
            let prefix = bytes@.subrange(0, end as int);
            assert(prefix.last() == bytes@[end - 1]);
            assert(prefix.drop_last() =~= bytes@.subrange(0, end - 1));
        }
        end = end - 1;
    }
    proof {
        let prefix = bytes@.subrange(0, end as int);
        if end > 0 {
            assert(prefix.last() == bytes@[end - 1]);
            assert(trim_bytes(prefix) == prefix);
        }
    }
    let mut r: Vec<u8> = Vec::new();
    let mut i: usize = 0;
    while i < end
        invariant
            i <= end <= bytes@.len(),
            r@ == bytes@.subrange(0, i as int),
        decreases end - i,
    {
        r.push(bytes[i]);
        proof {
            assert(r@ =~= bytes@.subrange(0, i + 1));
        }
        i += 1;
    }
    proof {
        assert(r@ =~= bytes@.subrange(0, end as int));
    }
    r
}

/// Stripping one padding byte from the tail commutes with trimming.
pub proof fn lemma_trim_bytes_pad_suffix(bytes: Seq<u8>, b: u8)
    requires
        is_pad_byte(b),
    ensures
        trim_bytes(bytes.push(b)) == trim_bytes(bytes),
{
    assert(bytes.push(b).last() == b);
    assert(bytes.push(b).drop_last() =~= bytes);
}

/// The two-null terminator never reaches the text: trimming a payload with
/// the terminator appended trims the bare payload.
pub proof fn lemma_trim_bytes_terminator(bytes: Seq<u8>)
    ensures
        trim_bytes(bytes + seq![0u8, 0u8]) == trim_bytes(bytes),
{
    assert(bytes + seq![0u8, 0u8] =~= bytes.push(0u8).push(0u8));
    lemma_trim_bytes_pad_suffix(bytes.push(0u8), 0u8);
    lemma_trim_bytes_pad_suffix(bytes, 0u8);
}

/// UTF-8 encoding distributes over concatenation of character sequences.
pub proof fn lemma_encode_utf8_concat(a: Seq<char>, b: Seq<char>)
    ensures
        encode_utf8(a + b) == encode_utf8(a) + encode_utf8(b),
    decreases a.len(),
{
    if a.len() == 0 {
        assert(a + b =~= b);
        assert(encode_utf8(a) + encode_utf8(b) =~= encode_utf8(b));
    } else {
        assert((a + b).len() > 0);
        assert((a + b)[0] == a[0]);
        assert((a + b).drop_first() =~= a.drop_first() + b);
        lemma_encode_utf8_concat(a.drop_first(), b);
        assert(encode_utf8(a + b) =~= encode_utf8(a) + encode_utf8(b));
    }
}

/// The last byte of a scalar's UTF-8 encoding is a padding byte exactly
/// when the scalar is a padding character's value: padding characters are
/// ASCII and encode as themselves, while every trailing byte of a longer
/// encoding has its high bit set.
proof fn lemma_encode_scalar_last_byte(c: char)
    ensures
        encode_scalar(c as u32).len() > 0,
        is_pad_byte(encode_scalar(c as u32).last()) == is_pad_char(c),
{
    vstd::utf8::char_is_scalar(c);
    let u = c as u32;
    if u <= 0x7F {
        assert(encode_scalar(u) == seq![vstd::utf8::leading_byte_width_1(u)]);
        assert(u <= 0x7F ==> (u & 0x7F) as u8 == u as u8) by (bit_vector);
        assert(u <= 0x7F ==> ((u as u8 == 0 || u as u8 == 9 || u as u8 == 10 || u as u8 == 11
            || u as u8 == 12 || u as u8 == 13 || u as u8 == 32) == (u == 0 || u == 9 || u == 10
            || u == 11 || u == 12 || u == 13 || u == 32))) by (bit_vector);
    } else {
        assert(encode_scalar(u).len() > 0 && encode_scalar(u).last()
            == vstd::utf8::last_continuation_byte(u));
        assert((0x80u8 | ((u & 0x3F) as u8)) >= 0x80) by (bit_vector);
        assert(!is_pad_byte(vstd::utf8::last_continuation_byte(u)));
    }
}

/// Trimming the UTF-8 encoding of a text is the UTF-8 encoding of the
/// trimmed text: the byte-level strip the codec performs does exactly what
/// a character-level strip would.
pub proof fn lemma_trim_bytes_encode_utf8(chars: Seq<char>)
    ensures
        trim_bytes(encode_utf8(chars)) == encode_utf8(trim_chars(chars)),
    decreases chars.len(),
{
    if chars.len() == 0 {
    } else {
        let c = chars.last();
        let a = chars.drop_last();
        assert(chars =~= a + seq![c]);
        lemma_encode_utf8_concat(a, seq![c]);
        assert(seq![c].len() == 1 && seq![c][0] == c);
        assert(seq![c].drop_first() =~= Seq::<char>::empty());
        assert(encode_utf8(Seq::<char>::empty()) =~= Seq::<u8>::empty());
        assert(encode_utf8(seq![c]) =~= encode_scalar(c as u32) + encode_utf8(
            seq![c].drop_first(),
        ));
        assert(encode_utf8(seq![c]) =~= encode_scalar(c as u32));
        lemma_encode_scalar_last_byte(c);
        let tail = encode_scalar(c as u32);
        if is_pad_char(c) {
            assert(tail.len() == 1);
            assert(encode_utf8(chars) =~= encode_utf8(a).push(tail[0]));
            lemma_trim_bytes_pad_suffix(encode_utf8(a), tail[0]);
            lemma_trim_bytes_encode_utf8(a);
            assert(trim_chars(chars) == trim_chars(a));
        } else {
            let whole = encode_utf8(chars);
            assert(whole.len() > 0);
            assert(whole.last() == tail.last());
            assert(trim_bytes(whole) == whole);
            assert(trim_chars(chars) == chars);
        }
    }
}

} // verus!
