//! The flag of a BRCAD that says whether its parts use texture variations,
//! in the editable form: a truth value. The flag is the most significant
//! byte of a word; the word as one number, as older versions wrote it, is
//! read too.
use vstd::prelude::*;
use crate::bxcad::serde_impl::Editable;
use crate::bxcad::serde_impl::Invalid;

verus! {

/// Reads the word of the flag from the editable form.
pub struct UseVariationVisitor;

/// What is expected: "a boolean or 32-bit integer".
pub const UNEXPECTED: &'static str = "a boolean or 32-bit integer";

/// The word whose most significant byte is 1 for true and 0 for false, and
/// whose other bytes are 0.
pub open spec fn packed_flag(flag: bool) -> u32 {
    if flag {
        0x0100_0000
    } else {
        0
    }
}

/// The flag of a word: whether its most significant byte is other than 0.
pub open spec fn flag_of(word: u32) -> bool {
    word >> 24 != 0
}

/// The word that the flag is read as from the editable form: a number of 32
/// bits is the word itself, a signed one in two's complement; a longer
/// number has to fit 32 bits; a truth value is packed.
pub open spec fn word_of(value: Editable) -> Result<u32, Invalid> {
    match value {
        Editable::U32(v) => Ok(v),
        Editable::I32(v) => Ok(v as u32),
        Editable::U64(v) => if v <= u32::MAX {
            Ok(v as u32)
        } else {
            Err(Invalid::Unsigned(v))
        },
        Editable::I64(v) => if i32::MIN <= v <= i32::MAX {
            Ok(v as i32 as u32)
        } else {
            Err(Invalid::Signed(v))
        },
        Editable::Bool(v) => Ok(packed_flag(v)),
        Editable::Pair { first, second, remaining } => Err(Invalid::Sequence),
    }
}

impl UseVariationVisitor {
    /// The word as older versions wrote it.
    pub fn visit_u32(&self, v: u32) -> (r: Result<u32, Invalid>)
        ensures
            r == word_of(Editable::U32(v)),
    {
        Ok(v)
    }

    /// The word as older versions wrote it, where it was taken for signed.
    pub fn visit_i32(&self, v: i32) -> (r: Result<u32, Invalid>)
        ensures
            r == word_of(Editable::I32(v)),
    {
        Ok(#[verifier::truncate] (v as u32))
    }

    /// A number that has to fit 32 bits.
    pub fn visit_u64(&self, v: u64) -> (r: Result<u32, Invalid>)
        ensures
            r == word_of(Editable::U64(v)),
    {
        if v <= 0xffff_ffff {
            self.visit_u32(v as u32)
        } else {
            Err(Invalid::Unsigned(v))
        }
    }

    /// A signed number that has to fit 32 bits.
    pub fn visit_i64(&self, v: i64) -> (r: Result<u32, Invalid>)
        ensures
            r == word_of(Editable::I64(v)),
    {
        if -0x8000_0000 <= v && v <= 0x7fff_ffff {
            self.visit_i32(v as i32)
        } else {
            Err(Invalid::Signed(v))
        }
    }

    /// The flag, which is packed into the most significant byte.
    pub fn visit_bool(&self, v: bool) -> (r: Result<u32, Invalid>)
        ensures
            r == word_of(Editable::Bool(v)),
    {
        if v {
            Ok(0x0100_0000)
        } else {
            Ok(0)
        }
    }
}

/// What the editable form shows of the word: its flag.
pub fn serialize(value: &u32) -> (r: bool)
    ensures
        r == flag_of(*value),
{
    (*value >> 24) != 0
}

/// Reads the word of the flag from a value of the editable form.
pub fn deserialize(value: Editable) -> (r: Result<u32, Invalid>)
    ensures
        r == word_of(value),
{
    let visitor = UseVariationVisitor;
    match value {
        Editable::U32(v) => visitor.visit_u32(v),
        Editable::I32(v) => visitor.visit_i32(v),
        Editable::U64(v) => visitor.visit_u64(v),
        Editable::I64(v) => visitor.visit_i64(v),
        Editable::Bool(v) => visitor.visit_bool(v),
        Editable::Pair { first, second, remaining } => Err(Invalid::Sequence),
    }
}

/// A flag that was packed is the flag of its word.
pub proof fn lemma_flag_of_packed(flag: bool)
    ensures
        flag_of(packed_flag(flag)) == flag,
{
    assert(0x0100_0000u32 >> 24 != 0) by (bit_vector);
    assert(0u32 >> 24 == 0) by (bit_vector);
}

} // verus!
