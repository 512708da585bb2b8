//! Decoding the first scalar of a UTF-8 byte sequence.
//!
//! The decoder trusts the shape of what it reads: the lead byte alone says
//! how many bytes belong to the scalar, and of every byte only the payload
//! bits are used. What it checks is the outcome, which must be a Unicode
//! scalar value.

use vstd::prelude::*;

verus! {

/// What [`pop`] found at the front of a byte sequence.
#[derive(Debug, Clone, Copy, PartialEq, Eq)]
pub enum Pop {
    /// There was no byte to read.
    Empty,
    /// The lead byte asked for more bytes than there are.
    Truncated,
    /// The bytes were there, but their value is no Unicode scalar value.
    Invalid,
    /// The scalar at the front.
    Scalar(char),
}

/// Mask of the value bits of a continuation byte.
const CONT_MASK: u8 = 0b0011_1111;

/// Whether `value` is a Unicode scalar value: a code point up to U+10FFFF
/// that is no surrogate.
pub open spec fn is_scalar(value: int) -> bool {
    0 <= value < 0xD800 || 0xE000 <= value <= 0x10FFFF
}

/// The number of bytes that a scalar takes, as its lead byte tells it.
pub open spec fn width(lead: u8) -> nat {
    if lead < 0x80 {
        1
    } else if lead < 0xE0 {
        2
    } else if lead < 0xF0 {
        3
    } else {
        4
    }
}

/// The six payload bits of a continuation byte.
pub open spec fn payload(byte: u8) -> int {
    byte as int % 64
}

/// The value that the first `width(bytes[0])` bytes of `bytes` spell: the
/// payload of the lead byte in the highest place, six bits for each byte
/// after it.
pub open spec fn accumulated(bytes: Seq<u8>) -> int
    recommends
        bytes.len() > 0,
        bytes.len() >= width(bytes[0]),
{
    let lead = bytes[0];
    if lead < 0x80 {
        lead as int
    } else if lead < 0xE0 {
        (lead as int % 32) * 64 + payload(bytes[1])
    } else if lead < 0xF0 {
        (lead as int % 16) * 4096 + payload(bytes[1]) * 64 + payload(bytes[2])
    } else {
        (lead as int % 8) * 262144 + payload(bytes[1]) * 4096 + payload(bytes[2]) * 64 + payload(
            bytes[3],
        )
    }
}

/// What stands at the front of `bytes`.
pub open spec fn first_scalar(bytes: Seq<u8>) -> Pop {
    if bytes.len() == 0 {
        Pop::Empty
    } else if bytes.len() < width(bytes[0]) {
        Pop::Truncated
    } else if is_scalar(accumulated(bytes)) {
        Pop::Scalar(accumulated(bytes) as char)
    } else {
        Pop::Invalid
    }
}

/// `char::from_u32` of the standard library: the `char` with the given
/// value where that value is a Unicode scalar value, and nothing for every
/// other value.
#[verifier::external_body]
fn char_from_u32(value: u32) -> (scalar: Option<char>)
    ensures
        scalar == (if is_scalar(value as int) {
            Some(value as char)
        } else {
            None
        }),
{
    char::from_u32(value)
}

/// Returns the initial codepoint accumulator for the first byte.
/// The first byte is special, only want bottom 5 bits for width 2, 4 bits
/// for width 3, and 3 bits for width 4.
fn utf8_first_byte(byte: u8, width: u32) -> (init: u32)
    requires
        width < 8,
    ensures
        init == byte % (128u8 >> width),
        init < 128,
{
    assert((byte & (0x7Fu8 >> width)) == byte % (128u8 >> width)) by (bit_vector)
        requires
            width < 8,
    ;
    assert((128u8 >> width) <= 128 && (128u8 >> width) > 0) by (bit_vector)
        requires
            width < 8,
    ;
    (byte & (0x7F >> width)) as u32
}

/// Returns the value of `ch` updated with continuation byte `byte`.
fn utf8_acc_cont_byte(ch: u32, byte: u8) -> (acc: u32)
    ensures
        acc == (ch as int * 64) % 0x1_0000_0000 + payload(byte),
{
    assert(((ch << 6) | ((byte & 0x3Fu8) as u32)) == (((ch as u64) * 64) % 0x1_0000_0000) + (byte
        % 64) as u64) by (bit_vector);
    (ch << 6) | (byte & CONT_MASK) as u32
}

/// Decode the scalar at the front of `bytes`.
///
/// Nothing is read past the bytes of that scalar; to decode what follows,
/// call again on the rest.
pub fn pop(bytes: &[u8]) -> (found: Pop)
    ensures
        found == first_scalar(bytes@),
{
    if bytes.len() == 0 {
        return Pop::Empty;
    }
    let x: u8 = bytes[0];
    if x < 128 {
        return match char_from_u32(x as u32) {
            Some(c) => Pop::Scalar(c),
            None => Pop::Invalid,
        };
    }
    let init: u32 = utf8_first_byte(x, 2);
    if bytes.len() < 2 {
        return Pop::Truncated;
    }
    let y: u8 = bytes[1];
    let mut ch: u32 = utf8_acc_cont_byte(init, y);
    proof {
        assert(128u8 >> 2u32 == 32) by (bit_vector);
    }
    if x >= 0xE0 {
        if bytes.len() < 3 {
            return Pop::Truncated;
        }
        let z: u8 = bytes[2];
        let y_z: u32 = utf8_acc_cont_byte((y & CONT_MASK) as u32, z);
        ch = init << 12 | y_z;
        proof {
            assert(y & 0x3F == y % 64) by (bit_vector);
            assert(0xE0 <= x < 0xF0 ==> x % 32 == x % 16) by (bit_vector);
            assert((init << 12 | y_z) == init * 4096 + y_z) by (bit_vector)
                requires
                    init < 32,
                    y_z < 4096,
            ;
        }
        if x >= 0xF0 {
            if bytes.len() < 4 {
                return Pop::Truncated;
            }
            let w: u8 = bytes[3];
            let y_z_w: u32 = utf8_acc_cont_byte(y_z, w);
            ch = (init & 7) << 18 | y_z_w;
            proof {
                assert(init & 7 == x % 8) by (bit_vector)
                    requires
                        init == x % 32,
                ;
                assert(((init & 7) << 18 | y_z_w) == (init & 7) * 262144 + y_z_w) by (bit_vector)
                    requires
                        y_z_w < 262144,
                ;
            }
        }
    }
    match char_from_u32(ch) {
        Some(c) => Pop::Scalar(c),
        None => Pop::Invalid,
    }
}

/// A byte below 128 at the front is a scalar by itself, whatever follows it.
pub proof fn lemma_ascii_is_itself(bytes: Seq<u8>)
    requires
        bytes.len() > 0,
        bytes[0] < 128,
    ensures
        first_scalar(bytes) == Pop::Scalar(bytes[0] as char),
{
}

/// Decoding looks at the bytes of the first scalar and at no byte behind
/// them: cutting the sequence off after `width(bytes[0])` bytes changes
/// nothing.
pub proof fn lemma_reads_only_its_width(bytes: Seq<u8>)
    requires
        bytes.len() > 0,
        bytes.len() >= width(bytes[0]),
    ensures
        first_scalar(bytes) == first_scalar(bytes.take(width(bytes[0]) as int)),
{
}

/// A sequence is reported as cut short exactly when it has a first byte
/// and fewer bytes than that byte asks for, and as empty exactly when it
/// has no byte.
pub proof fn lemma_when_input_runs_out(bytes: Seq<u8>)
    ensures
        first_scalar(bytes) is Empty <==> bytes.len() == 0,
        first_scalar(bytes) is Truncated <==> 0 < bytes.len() < width(bytes[0]),
{
}

/// Where the sequence begins with a well-formed UTF-8 encoding of a scalar,
/// decoding yields that scalar, and takes as many bytes as the encoding has.
pub proof fn lemma_agrees_with_well_formed_utf8(bytes: Seq<u8>)
    requires
        vstd::utf8::valid_first_scalar(bytes),
    ensures
        width(bytes[0]) == vstd::utf8::length_of_first_scalar(bytes),
        first_scalar(bytes) == Pop::Scalar(vstd::utf8::decode_first_scalar(bytes) as char),
{
    let b0 = bytes[0];
    if b0 < 0x80 {
        assert((b0 & 0x7F) as u32 == b0) by (bit_vector)
            requires
                b0 < 0x80,
        ;
    } else if b0 < 0xE0 {
        let b1 = bytes[1];
        assert((((b0 & 0x1F) as u32) << 6) | ((b1 & 0x3F) as u32) == (b0 % 32) * 64 + b1 % 64)
            by (bit_vector);
    } else if b0 < 0xF0 {
        let b1 = bytes[1];
        let b2 = bytes[2];
        assert((((b0 & 0x0F) as u32) << 12) | (((b1 & 0x3F) as u32) << 6) | ((b2 & 0x3F) as u32)
            == (b0 % 16) * 4096 + (b1 % 64) * 64 + b2 % 64) by (bit_vector);
    } else {
        let b1 = bytes[1];
        let b2 = bytes[2];
        let b3 = bytes[3];
        assert((((b0 & 0x07) as u32) << 18) | (((b1 & 0x3F) as u32) << 12) | (((b2 & 0x3F) as u32)
            << 6) | ((b3 & 0x3F) as u32) == (b0 % 8) * 262144 + (b1 % 64) * 4096 + (b2 % 64) * 64
            + b3 % 64) by (bit_vector);
    }
}

/// Decoding the UTF-8 encoding of a text yields the first `char` of the
/// text, whatever text it is, so long as it has one.
pub proof fn lemma_decodes_first_char_of_text(text: Seq<char>)
    requires
        text.len() > 0,
    ensures
        first_scalar(vstd::utf8::encode_utf8(text)) == Pop::Scalar(text[0]),
{
    let bytes = vstd::utf8::encode_utf8(text);
    vstd::utf8::encode_utf8_first_scalar(text);
    lemma_agrees_with_well_formed_utf8(bytes);
    vstd::utf8::char_u32_cast(text[0], vstd::utf8::decode_first_scalar(bytes));
}

} // verus!
