//! Words and their bytes. A word is 32 bits; memory holds it as four bytes.

use vstd::prelude::*;

verus! {

/// Byte `i` of `value`, counted from the least significant byte.
pub open spec fn byte_of(value: u32, i: int) -> u8 {
    if i == 0 {
        (value & 0xFF) as u8
    } else if i == 1 {
        ((value >> 8) & 0xFF) as u8
    } else if i == 2 {
        ((value >> 16) & 0xFF) as u8
    } else {
        ((value >> 24) & 0xFF) as u8
    }
}

/// The word whose bytes are `b0` to `b3`, least significant first.
pub open spec fn word_of(b0: u8, b1: u8, b2: u8, b3: u8) -> u32 {
    (b0 as u32) | ((b1 as u32) << 8) | ((b2 as u32) << 16) | ((b3 as u32) << 24)
}

/// Splits a word into its bytes, least significant first.
pub fn to_bytes(value: u32) -> (bytes: [u8; 4])
    ensures
        forall|i: int| 0 <= i < 4 ==> bytes[i] == byte_of(value, i),
{
    [
        (value & 0xFF) as u8,
        ((value >> 8) & 0xFF) as u8,
        ((value >> 16) & 0xFF) as u8,
        ((value >> 24) & 0xFF) as u8,
    ]
}

/// Assembles a word from its bytes, least significant first.
pub fn from_bytes(b0: u8, b1: u8, b2: u8, b3: u8) -> (value: u32)
    ensures
        value == word_of(b0, b1, b2, b3),
{
    (b0 as u32) | ((b1 as u32) << 8) | ((b2 as u32) << 16) | ((b3 as u32) << 24)
}

/// Splitting a word and assembling the bytes again gives the word back, and
/// each byte of an assembled word is the byte it was assembled from.
pub proof fn lemma_word_round_trip(value: u32, b0: u8, b1: u8, b2: u8, b3: u8)
    ensures
        word_of(byte_of(value, 0), byte_of(value, 1), byte_of(value, 2), byte_of(value, 3))
            == value,
        byte_of(word_of(b0, b1, b2, b3), 0) == b0,
        byte_of(word_of(b0, b1, b2, b3), 1) == b1,
        byte_of(word_of(b0, b1, b2, b3), 2) == b2,
        byte_of(word_of(b0, b1, b2, b3), 3) == b3,
{
    assert(((value & 0xFF) as u8 as u32) | ((((value >> 8) & 0xFF) as u8 as u32) << 8) | ((((value
        >> 16) & 0xFF) as u8 as u32) << 16) | ((((value >> 24) & 0xFF) as u8 as u32) << 24)
        == value) by (bit_vector);
    let w = word_of(b0, b1, b2, b3);
    assert((w & 0xFF) as u8 == b0 && ((w >> 8) & 0xFF) as u8 == b1 && ((w >> 16) & 0xFF) as u8
        == b2 && ((w >> 24) & 0xFF) as u8 == b3) by (bit_vector)
        requires
            w == (b0 as u32) | ((b1 as u32) << 8) | ((b2 as u32) << 16) | ((b3 as u32) << 24),
    ;
}

} // verus!
