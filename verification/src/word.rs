//! Words: the 4-byte unit of analysis, and the ways one word is decoded.

use vstd::prelude::*;

verus! {

/// Number of bytes in one word.
pub const WORD_BYTES: u64 = 4;

/// Byte order under which a word is decoded.
#[derive(Debug, Clone, Copy, PartialEq, Eq, Structural)]
pub enum Endian {
    Big,
    Little,
}

impl Endian {
    /// The name of the byte order, in lower case.
    pub open spec fn spec_name(&self) -> Seq<char> {
        match self {
            Endian::Big => "big"@,
            Endian::Little => "little"@,
        }
    }

    /// The name of the byte order, in lower case.
    pub fn name(&self) -> (name: &'static str)
        ensures
            name@ == self.spec_name(),
    {
        match self {
            Endian::Big => "big",
            Endian::Little => "little",
        }
    }
}

/// The word as an unsigned 32-bit integer.
pub open spec fn unsigned_value(word: [u8; 4], endian: Endian) -> int {
    match endian {
        Endian::Little => word[0] + 0x100 * word[1] + 0x1_0000 * word[2] + 0x100_0000 * word[3],
        Endian::Big => word[3] + 0x100 * word[2] + 0x1_0000 * word[1] + 0x100_0000 * word[0],
    }
}

/// The word as a two's-complement signed 32-bit integer.
pub open spec fn signed_value(word: [u8; 4], endian: Endian) -> int {
    let u = unsigned_value(word, endian);
    if u >= 0x8000_0000 {
        u - 0x1_0000_0000
    } else {
        u
    }
}

/// The word is the all-zero word. This does not depend on the byte order.
pub open spec fn is_zero_word(word: [u8; 4]) -> bool {
    word[0] == 0 && word[1] == 0 && word[2] == 0 && word[3] == 0
}

/// The 8-bit exponent field of the word read as an IEEE-754 single.
pub open spec fn float_exponent(word: [u8; 4], endian: Endian) -> int {
    (unsigned_value(word, endian) / 0x80_0000) % 0x100
}

/// The 23-bit fraction field of the word read as an IEEE-754 single.
pub open spec fn float_fraction(word: [u8; 4], endian: Endian) -> int {
    unsigned_value(word, endian) % 0x80_0000
}

/// The word read as an IEEE-754 single is a NaN: its exponent field is all
/// ones and its fraction is not zero. The sign bit plays no part.
pub open spec fn is_nan_word(word: [u8; 4], endian: Endian) -> bool {
    float_exponent(word, endian) == 0xff && float_fraction(word, endian) != 0
}

/// Decodes a word as an unsigned 32-bit integer.
pub fn decode_unsigned(word: &[u8; 4], endian: Endian) -> (value: u32)
    ensures
        value == unsigned_value(*word, endian),
{
    let (b0, b1, b2, b3): (u8, u8, u8, u8) = match endian {
        Endian::Little => (word[0], word[1], word[2], word[3]),
        Endian::Big => (word[3], word[2], word[1], word[0]),
    };
    b0 as u32 + 0x100 * (b1 as u32) + 0x1_0000 * (b2 as u32) + 0x100_0000 * (b3 as u32)
}

/// Decodes a word as a signed 32-bit integer.
pub fn decode_signed(word: &[u8; 4], endian: Endian) -> (value: i32)
    ensures
        value == signed_value(*word, endian),
{
    let u: u32 = decode_unsigned(word, endian);
    if u >= 0x8000_0000 {
        let below: u32 = u - 0x8000_0000;
        (below as i32) + i32::MIN
    } else {
        u as i32
    }
}

/// Tells whether a word is the all-zero word.
pub fn word_is_zero(word: &[u8; 4]) -> (zero: bool)
    ensures
        zero == is_zero_word(*word),
{
    word[0] == 0 && word[1] == 0 && word[2] == 0 && word[3] == 0
}

/// Tells whether a word, read as an IEEE-754 single, is a NaN.
pub fn word_is_nan(word: &[u8; 4], endian: Endian) -> (nan: bool)
    ensures
        nan == is_nan_word(*word, endian),
{
    let u: u32 = decode_unsigned(word, endian);
    (u / 0x80_0000) % 0x100 == 0xff && u % 0x80_0000 != 0
}

/// Both decodings of a word stay within 32 bits, the signed one is never the
/// greater, and a word is the all-zero word exactly when it decodes to zero.
pub proof fn lemma_decodings(word: [u8; 4], endian: Endian)
    ensures
        is_zero_word(word) <==> unsigned_value(word, endian) == 0,
        is_zero_word(word) <==> signed_value(word, endian) == 0,
        0 <= unsigned_value(word, endian) <= u32::MAX,
        i32::MIN <= signed_value(word, endian) <= i32::MAX,
        signed_value(word, endian) <= unsigned_value(word, endian),
{
}

} // verus!
