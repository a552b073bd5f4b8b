//! Text and its bytes: what the UTF-8 encoding keeps of single characters.
//!
//! A character below 128 is encoded as the one byte of the same number, and
//! every byte of the encoding of any other character is 128 or more. So a
//! byte below 128 stands in the encoding of a text exactly where the
//! character of that number stands in the text.

use vstd::prelude::*;
use vstd::utf8::*;

verus! {

/// The bytes of the encoding of one scalar: the scalar itself when it is
/// below 128, and otherwise bytes of 128 or more.
proof fn lemma_scalar_bytes(scalar: u32)
    requires
        is_scalar(scalar),
    ensures
        encode_scalar(scalar).len() >= 1,
        scalar < 0x80 ==> encode_scalar(scalar) == seq![scalar as u8],
        scalar >= 0x80 ==> forall|i: int|
            0 <= i < encode_scalar(scalar).len() ==> #[trigger] encode_scalar(scalar)[i] >= 0x80,
{
    if has_width_1_encoding(scalar) {
        assert(leading_byte_width_1(scalar) == scalar as u8) by (bit_vector)
            requires
                scalar <= 0x7F,
        ;
        assert(encode_scalar(scalar) =~= seq![scalar as u8]);
    } else {
        assert(leading_byte_width_2(scalar) >= 0x80) by (bit_vector);
        assert(leading_byte_width_3(scalar) >= 0x80) by (bit_vector);
        assert(leading_byte_width_4(scalar) >= 0x80) by (bit_vector);
        assert(last_continuation_byte(scalar) >= 0x80) by (bit_vector);
        assert(second_last_continuation_byte(scalar) >= 0x80) by (bit_vector);
        assert(third_last_continuation_byte(scalar) >= 0x80) by (bit_vector);
    }
}

/// A byte below 128 stands in the encoding of `chars` exactly when the
/// character of that number stands in `chars`.
pub proof fn lemma_encoding_holds_byte(chars: Seq<char>, byte: u8)
    requires
        byte < 0x80,
    ensures
        encode_utf8(chars).contains(byte) <==> exists|j: int|
            0 <= j < chars.len() && #[trigger] chars[j] as u32 == byte as u32,
    decreases chars.len(),
{
    let bytes = encode_utf8(chars);
    if chars.len() == 0 {
    } else {
        let head = encode_scalar(chars[0] as u32);
        let rest = chars.drop_first();
        let tail = encode_utf8(rest);
        assert(bytes == head + tail);
        char_is_scalar(chars[0]);
        lemma_scalar_bytes(chars[0] as u32);
        lemma_encoding_holds_byte(rest, byte);
        if bytes.contains(byte) {
            let i = choose|i: int| 0 <= i < bytes.len() && bytes[i] == byte;
            if i < head.len() {
                assert(head[i] == byte);
                assert(chars[0] as u32 == byte as u32);
            } else {
                assert(tail[i - head.len()] == byte);
                assert(tail.contains(byte));
                let j = choose|j: int| 0 <= j < rest.len() && #[trigger] rest[j] as u32 == byte as u32;
                assert(chars[j + 1] == rest[j]);
            }
        }
        if exists|j: int| 0 <= j < chars.len() && #[trigger] chars[j] as u32 == byte as u32 {
            let j = choose|j: int| 0 <= j < chars.len() && #[trigger] chars[j] as u32 == byte as u32;
            if j == 0 {
                assert(head[0] == byte);
                assert(bytes[0] == byte);
            } else {
                assert(rest[j - 1] == chars[j]);
                assert(tail.contains(byte));
                let i = choose|i: int| 0 <= i < tail.len() && tail[i] == byte;
                assert(bytes[head.len() + i] == byte);
            }
        }
    }
}

/// A character is the character of the number `byte` exactly when `byte` is
/// its number.
pub proof fn lemma_char_of_byte(c: char, byte: u8)
    ensures
        c as u32 == byte as u32 <==> c == byte as char,
{
    char_u32_cast(c, c as u32);
    char_u32_cast(byte as char, (byte as char) as u32);
}

/// A byte below 128 stands in the encoding of `chars` exactly when its
/// character stands in `chars`.
pub proof fn lemma_encoding_holds_char(chars: Seq<char>, byte: u8)
    requires
        byte < 0x80,
    ensures
        encode_utf8(chars).contains(byte) <==> chars.contains(byte as char),
{
    lemma_encoding_holds_byte(chars, byte);
    if chars.contains(byte as char) {
        let j = choose|j: int| 0 <= j < chars.len() && chars[j] == byte as char;
        lemma_char_of_byte(chars[j], byte);
    }
    if encode_utf8(chars).contains(byte) {
        let j = choose|j: int| 0 <= j < chars.len() && #[trigger] chars[j] as u32 == byte as u32;
        lemma_char_of_byte(chars[j], byte);
    }
}

/// The encoding of a text that is not empty is not empty, and its last byte
/// is a given byte below 128 exactly when the last character of the text is
/// the character of that number.
pub proof fn lemma_encoding_last_byte(chars: Seq<char>, byte: u8)
    requires
        byte < 0x80,
        chars.len() > 0,
    ensures
        encode_utf8(chars).len() > 0,
        encode_utf8(chars).last() == byte <==> chars.last() == byte as char,
    decreases chars.len(),
{
    lemma_char_of_byte(chars.last(), byte);
    let bytes = encode_utf8(chars);
    let head = encode_scalar(chars[0] as u32);
    let rest = chars.drop_first();
    let tail = encode_utf8(rest);
    assert(bytes == head + tail);
    char_is_scalar(chars[0]);
    lemma_scalar_bytes(chars[0] as u32);
    if rest.len() == 0 {
        assert(tail.len() == 0);
        assert(bytes =~= head);
        assert(chars.last() == chars[0]);
        if chars[0] as u32 >= 0x80 {
            assert(head[head.len() - 1] >= 0x80);
        }
    } else {
        lemma_encoding_last_byte(rest, byte);
        lemma_char_of_byte(rest.last(), byte);
        assert(bytes.last() == tail.last());
        assert(chars.last() == rest.last());
    }
}

/// The newline character is encoded as the newline byte.
pub proof fn lemma_newline_is_one_byte()
    ensures
        encode_scalar('\n' as u32) == seq![0x0au8],
{
    char_is_scalar('\n');
    lemma_scalar_bytes('\n' as u32);
}

/// The encoding of two texts, one after the other, is the encoding of the
/// one followed by the encoding of the other.
pub proof fn lemma_encoding_of_concat(first: Seq<char>, second: Seq<char>)
    ensures
        encode_utf8(first + second) == encode_utf8(first) + encode_utf8(second),
    decreases first.len(),
{
    if first.len() == 0 {
        assert(first + second =~= second);
        assert(encode_utf8(first) + encode_utf8(second) =~= encode_utf8(second));
    } else {
        let whole = first + second;
        assert(whole[0] == first[0]);
        assert(whole.drop_first() =~= first.drop_first() + second);
        lemma_encoding_of_concat(first.drop_first(), second);
        assert(encode_utf8(whole) =~= encode_utf8(first) + encode_utf8(second));
    }
}

} // verus!
