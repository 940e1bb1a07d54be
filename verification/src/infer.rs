//! Type inference for one run of non-zero words.
//!
//! Every word of the run is decoded as a signed and as an unsigned 32-bit
//! integer, and both decodings feed one shared pair of bounds that starts at
//! zero. The assumed type is then read off the bounds by an ordered list of
//! rules. Independently of the type, the run is tested for NaN patterns and
//! for being valid UTF-8.

use crate::word::{
    decode_signed, decode_unsigned, is_nan_word, signed_value, unsigned_value, word_is_nan, Endian,
};
use vstd::prelude::*;
use vstd::utf8::{decode_utf8, valid_utf8};

verus! {

/// The primitive type proposed for a run of non-zero words.
#[allow(non_camel_case_types)]
#[derive(Debug, Clone, Copy, PartialEq, Eq, Structural)]
pub enum AssumedType {
    Bool,
    I8,
    I16,
    I32,
    U8,
    U16,
    U32,
    Zero,
}

/// What was learned about one run of non-zero words.
#[derive(Debug, Clone, Copy, PartialEq, Eq, Structural)]
pub struct Inference {
    pub assumed_type: AssumedType,
    pub min: i64,
    pub max: i64,
    pub float_plausible: bool,
    pub string_plausible: bool,
}

/// The assumed type for given bounds: the first rule that matches wins.
///
/// 1. `Bool` when both bounds are 0 or 1.
/// 2. Otherwise, when a bound is negative, the signed family: `I8` when the
///    bounds fit in 8 bits, else `I16` when they fit in 16 bits, else `I32`.
/// 3. Otherwise, when the upper bound is positive, the unsigned family: `U8`,
///    else `U16`, else `U32`, by the upper bound alone.
/// 4. Otherwise `Zero`.
pub open spec fn select_type(min: int, max: int) -> AssumedType {
    if (min == 0 || min == 1) && (max == 0 || max == 1) {
        AssumedType::Bool
    } else if min < 0 || max < 0 {
        if -0x80 <= min && max <= 0x7f {
            AssumedType::I8
        } else if -0x8000 <= min && max <= 0x7fff {
            AssumedType::I16
        } else {
            AssumedType::I32
        }
    } else if max > 0 {
        if max <= 0xff {
            AssumedType::U8
        } else if max <= 0xffff {
            AssumedType::U16
        } else {
            AssumedType::U32
        }
    } else {
        AssumedType::Zero
    }
}

/// The shared lower bound after folding the words in order, starting at zero.
pub open spec fn run_min(words: Seq<[u8; 4]>, endian: Endian) -> int
    decreases words.len(),
{
    if words.len() == 0 {
        0
    } else {
        let before = run_min(words.drop_last(), endian);
        let signed = signed_value(words.last(), endian);
        let unsigned = unsigned_value(words.last(), endian);
        vstd::math::min(vstd::math::min(before, signed), unsigned)
    }
}

/// The shared upper bound after folding the words in order, starting at zero.
pub open spec fn run_max(words: Seq<[u8; 4]>, endian: Endian) -> int
    decreases words.len(),
{
    if words.len() == 0 {
        0
    } else {
        let before = run_max(words.drop_last(), endian);
        let signed = signed_value(words.last(), endian);
        let unsigned = unsigned_value(words.last(), endian);
        vstd::math::max(vstd::math::max(before, signed), unsigned)
    }
}

/// Some word of the run is a NaN when read as an IEEE-754 single.
pub open spec fn has_nan(words: Seq<[u8; 4]>, endian: Endian) -> bool {
    exists|i: int| 0 <= i < words.len() && is_nan_word(#[trigger] words[i], endian)
}

/// The bytes of the words, one word after the other, as they lie in memory.
pub open spec fn run_bytes(words: Seq<[u8; 4]>) -> Seq<u8> {
    Seq::new(4 * words.len(), |j: int| words[j / 4][j % 4])
}

/// The inference for a run of words: type and bounds, whether no word is a
/// NaN, and whether the bytes of the run are valid UTF-8.
pub open spec fn inference_of(words: Seq<[u8; 4]>, endian: Endian) -> Inference {
    Inference {
        assumed_type: select_type(run_min(words, endian), run_max(words, endian)),
        min: run_min(words, endian) as i64,
        max: run_max(words, endian) as i64,
        float_plausible: !has_nan(words, endian),
        string_plausible: valid_utf8(run_bytes(words)),
    }
}

impl AssumedType {
    /// The name of the type, as it is written in a report.
    pub open spec fn spec_name(&self) -> Seq<char> {
        match self {
            AssumedType::Bool => "Bool"@,
            AssumedType::I8 => "I8"@,
            AssumedType::I16 => "I16"@,
            AssumedType::I32 => "I32"@,
            AssumedType::U8 => "U8"@,
            AssumedType::U16 => "U16"@,
            AssumedType::U32 => "U32"@,
            AssumedType::Zero => "Zero"@,
        }
    }

    /// The name of the type, as it is written in a report.
    pub fn name(&self) -> (name: &'static str)
        ensures
            name@ == self.spec_name(),
    {
        match self {
            AssumedType::Bool => "Bool",
            AssumedType::I8 => "I8",
            AssumedType::I16 => "I16",
            AssumedType::I32 => "I32",
            AssumedType::U8 => "U8",
            AssumedType::U16 => "U16",
            AssumedType::U32 => "U32",
            AssumedType::Zero => "Zero",
        }
    }

    /// Selects the assumed type for the given bounds.
    pub fn select(min: i64, max: i64) -> (assumed: AssumedType)
        ensures
            assumed == select_type(min as int, max as int),
    {
        if (min == 0 || min == 1) && (max == 0 || max == 1) {
            AssumedType::Bool
        } else if min < 0 || max < 0 {
            if min >= -0x80 && max <= 0x7f {
                AssumedType::I8
            } else if min >= -0x8000 && max <= 0x7fff {
                AssumedType::I16
            } else {
                AssumedType::I32
            }
        } else if max > 0 {
            if max <= 0xff {
                AssumedType::U8
            } else if max <= 0xffff {
                AssumedType::U16
            } else {
                AssumedType::U32
            }
        } else {
            AssumedType::Zero
        }
    }
}

/// The error of `String::from_utf8`; nothing is read from it.
#[verifier::external_type_specification]
#[verifier::external_body]
pub struct ExFromUtf8Error(std::string::FromUtf8Error);

/// `String::from_utf8` succeeds exactly on the byte vectors that are valid
/// UTF-8, and the string it gives holds the characters that the bytes encode.
pub assume_specification[ String::from_utf8 ](vec: Vec<u8>) -> (result: Result<
    String,
    std::string::FromUtf8Error,
>)
    ensures
        result is Ok <==> valid_utf8(vec@),
        result matches Ok(text) ==> text@ == decode_utf8(vec@),
;

/// The bounds stay within what a 32-bit word can decode to, and never leave
/// zero behind: the lower bound is at most zero, the upper bound at least.
pub proof fn lemma_run_bounds(words: Seq<[u8; 4]>, endian: Endian)
    ensures
        i32::MIN <= run_min(words, endian) <= 0,
        0 <= run_max(words, endian) <= u32::MAX,
    decreases words.len(),
{
    if words.len() > 0 {
        lemma_run_bounds(words.drop_last(), endian);
    }
}

/// Infers type, bounds, float plausibility and string plausibility for the
/// words of one run.
pub fn infer(data: &[[u8; 4]], endian: Endian) -> (result: (AssumedType, i64, i64, bool, bool))
    ensures
        result.0 == inference_of(data@, endian).assumed_type,
        result.1 == run_min(data@, endian),
        result.2 == run_max(data@, endian),
        result.3 == !has_nan(data@, endian),
        result.4 == valid_utf8(run_bytes(data@)),
{
    let mut all: Vec<u8> = Vec::new();
    let mut min: i64 = 0;
    let mut max: i64 = 0;
    let mut float: bool = true;

    for i in 0..data.len()
        invariant
            min == run_min(data@.take(i as int), endian),
            max == run_max(data@.take(i as int), endian),
            float == !has_nan(data@.take(i as int), endian),
            all@ == run_bytes(data@.take(i as int)),
    {
        let word: &[u8; 4] = &data[i];
        let ghost before = data@.take(i as int);
        let ghost now = data@.take(i + 1);
        assert(now.drop_last() =~= before);

        let signed: i64 = decode_signed(word, endian) as i64;
        if signed < min {
            min = signed;
        }
        if signed > max {
            max = signed;
        }

        let unsigned: i64 = decode_unsigned(word, endian) as i64;
        if unsigned < min {
            min = unsigned;
        }
        if unsigned > max {
            max = unsigned;
        }

        if word_is_nan(word, endian) {
            float = false;
        }
        all.push(word[0]);
        all.push(word[1]);
        all.push(word[2]);
        all.push(word[3]);
    }
    assert(data@.take(data.len() as int) =~= data@);

    let string: bool = String::from_utf8(all).is_ok();
    let assumed: AssumedType = AssumedType::select(min, max);
    (assumed, min, max, float, string)
}

/// The range of a type holds both bounds.
pub open spec fn fits(assumed: AssumedType, min: int, max: int) -> bool {
    match assumed {
        AssumedType::Bool => 0 <= min && max <= 1,
        AssumedType::I8 => -0x80 <= min && max <= 0x7f,
        AssumedType::I16 => -0x8000 <= min && max <= 0x7fff,
        AssumedType::I32 => -0x8000_0000 <= min && max <= 0x7fff_ffff,
        AssumedType::U8 => 0 <= min && max <= 0xff,
        AssumedType::U16 => 0 <= min && max <= 0xffff,
        AssumedType::U32 => 0 <= min && max <= 0xffff_ffff,
        AssumedType::Zero => 0 <= min && max <= 0,
    }
}

/// The number of bits of a type.
pub open spec fn width(assumed: AssumedType) -> nat {
    match assumed {
        AssumedType::Zero => 0,
        AssumedType::Bool => 1,
        AssumedType::I8 | AssumedType::U8 => 8,
        AssumedType::I16 | AssumedType::U16 => 16,
        AssumedType::I32 | AssumedType::U32 => 32,
    }
}

/// The type belongs to the signed family.
pub open spec fn is_signed(assumed: AssumedType) -> bool {
    assumed == AssumedType::I8 || assumed == AssumedType::I16 || assumed == AssumedType::I32
}

/// The type belongs to the unsigned family.
pub open spec fn is_unsigned(assumed: AssumedType) -> bool {
    assumed == AssumedType::U8 || assumed == AssumedType::U16 || assumed == AssumedType::U32
}

/// The bounds of a run are the least and the greatest among zero and all
/// decodings of its words: they bound every decoding, and each is zero or is
/// the decoding of some word.
pub proof fn lemma_run_extremes(words: Seq<[u8; 4]>, endian: Endian)
    ensures
        forall|i: int|
            0 <= i < words.len() ==> run_min(words, endian) <= signed_value(
                #[trigger] words[i],
                endian,
            ) <= unsigned_value(words[i], endian) <= run_max(words, endian),
        run_min(words, endian) == 0 || exists|i: int|
            0 <= i < words.len() && run_min(words, endian) == signed_value(
                #[trigger] words[i],
                endian,
            ),
        run_max(words, endian) == 0 || exists|i: int|
            0 <= i < words.len() && run_max(words, endian) == unsigned_value(
                #[trigger] words[i],
                endian,
            ),
    decreases words.len(),
{
    if words.len() > 0 {
        let head = words.drop_last();
        lemma_run_extremes(head, endian);
        assert forall|i: int| 0 <= i < words.len() implies run_min(words, endian) <= signed_value(
            #[trigger] words[i],
            endian,
        ) <= unsigned_value(words[i], endian) <= run_max(words, endian) by {
            if i < head.len() {
                assert(head[i] == words[i]);
            }
        }
    }
}

/// Bool priority: a run whose words all decode to 0 or 1, signed and
/// unsigned, is assumed to be `Bool`.
pub proof fn lemma_bool_priority(words: Seq<[u8; 4]>, endian: Endian)
    requires
        forall|i: int|
            0 <= i < words.len() ==> {
                &&& 0 <= signed_value(#[trigger] words[i], endian) <= 1
                &&& 0 <= unsigned_value(words[i], endian) <= 1
            },
    ensures
        inference_of(words, endian).assumed_type == AssumedType::Bool,
{
    lemma_run_extremes(words, endian);
}

/// Width minimality, signed family: when a bound is negative and `I32` holds
/// the bounds, the assumed type is the narrowest signed type that holds them.
pub proof fn lemma_narrowest_signed(min: int, max: int)
    requires
        min < 0 || max < 0,
        fits(AssumedType::I32, min, max),
    ensures
        is_signed(select_type(min, max)),
        fits(select_type(min, max), min, max),
        forall|other: AssumedType|
            is_signed(other) && #[trigger] fits(other, min, max) ==> width(select_type(min, max))
                <= width(other),
{
}

/// Width minimality, unsigned family: when no bound is negative, the `Bool`
/// rule does not apply and `U32` holds the bounds, the assumed type is the
/// narrowest unsigned type that holds them.
pub proof fn lemma_narrowest_unsigned(min: int, max: int)
    requires
        0 <= min,
        0 < max,
        !((min == 0 || min == 1) && (max == 0 || max == 1)),
        fits(AssumedType::U32, min, max),
    ensures
        is_unsigned(select_type(min, max)),
        fits(select_type(min, max), min, max),
        forall|other: AssumedType|
            is_unsigned(other) && #[trigger] fits(other, min, max) ==> width(select_type(min, max))
                <= width(other),
{
}

/// The last rule is a fallback that ordered bounds never reach.
pub proof fn lemma_zero_is_unreachable(min: int, max: int)
    requires
        min <= max,
    ensures
        select_type(min, max) != AssumedType::Zero,
{
}

/// What the shared bounds do to the type of a run: with a negative decoding
/// the run is `I32`, because the same word read unsigned exceeds every
/// narrower signed range; without one the type is `Bool` or the narrowest
/// unsigned type that holds the upper bound.
pub proof fn lemma_run_type(words: Seq<[u8; 4]>, endian: Endian)
    ensures
        run_min(words, endian) < 0 ==> inference_of(words, endian).assumed_type
            == AssumedType::I32,
        run_min(words, endian) == 0 && run_max(words, endian) <= 1 ==> inference_of(
            words,
            endian,
        ).assumed_type == AssumedType::Bool,
        run_min(words, endian) == 0 && run_max(words, endian) > 1 ==> {
            let assumed = inference_of(words, endian).assumed_type;
            &&& is_unsigned(assumed)
            &&& fits(assumed, run_min(words, endian), run_max(words, endian))
            &&& forall|other: AssumedType|
                is_unsigned(other) && #[trigger] fits(
                    other,
                    run_min(words, endian),
                    run_max(words, endian),
                ) ==> width(assumed) <= width(other)
        },
{
    lemma_run_bounds(words, endian);
    lemma_run_extremes(words, endian);
    if run_min(words, endian) == 0 && run_max(words, endian) > 1 {
        lemma_narrowest_unsigned(run_min(words, endian), run_max(words, endian));
    }
}

} // verus!
