//! The texture variation of a part in the editable form: the number that
//! the upper 16 bits of the part's word hold. A number that needs more than
//! 16 bits is taken for the whole word, as older versions wrote it.
use vstd::prelude::*;
use crate::bxcad::serde_impl::Editable;
use crate::bxcad::serde_impl::Invalid;

verus! {

/// Reads the variation of a part from the editable form.
pub struct VariationNumVisitor;

/// What is expected: "an integer".
pub const UNEXPECTED: &'static str = "an integer";

/// The variation that a number of the editable form stands for: the upper
/// half of its low 32 bits where they need more than 16 bits, and else the
/// number itself.
pub open spec fn variation_of(v: u64) -> u32 {
    let word = v as u32;
    if word > u16::MAX {
        word >> 16
    } else {
        word
    }
}

/// The variation that is shown of a word: its upper 16 bits.
pub open spec fn shown_variation(word: u32) -> u16 {
    (word >> 16) as u16
}

/// The variation that is read from the editable form: that of a number,
/// a signed one taken in two's complement.
pub open spec fn word_of(value: Editable) -> Result<u32, Invalid> {
    match value {
        Editable::U32(v) => Ok(variation_of(v as u64)),
        Editable::I32(v) => Ok(variation_of(v as i64 as u64)),
        Editable::U64(v) => Ok(variation_of(v)),
        Editable::I64(v) => Ok(variation_of(v as u64)),
        Editable::Bool(v) => Err(Invalid::Bool(v)),
        Editable::Pair { first, second, remaining } => Err(Invalid::Sequence),
    }
}

impl VariationNumVisitor {
    /// A signed number, which is taken in two's complement.
    pub fn visit_i64(&self, v: i64) -> (r: Result<u32, Invalid>)
        ensures
            r == word_of(Editable::I64(v)),
    {
        self.visit_u64(#[verifier::truncate] (v as u64))
    }

    /// A number: the whole word where it needs more than 16 bits, else the
    /// variation.
    pub fn visit_u64(&self, v: u64) -> (r: Result<u32, Invalid>)
        ensures
            r == word_of(Editable::U64(v)),
    {
        let word = #[verifier::truncate] (v as u32);
        Ok(
            if word > 0xffff {
                word >> 16
            } else {
                word
            },
        )
    }
}

/// What the editable form shows of the word of a part: its variation.
pub fn serialize(value: &u32) -> (r: u16)
    ensures
        r == shown_variation(*value),
{
    #[verifier::truncate] ((*value >> 16) as u16)
}

/// Reads the variation of a part from a value of the editable form.
pub fn deserialize(value: Editable) -> (r: Result<u32, Invalid>)
    ensures
        r == word_of(value),
{
    let visitor = VariationNumVisitor;
    match value {
        Editable::U32(v) => visitor.visit_u64(v as u64),
        Editable::I32(v) => visitor.visit_i64(v as i64),
        Editable::U64(v) => visitor.visit_u64(v),
        Editable::I64(v) => visitor.visit_i64(v),
        Editable::Bool(v) => Err(Invalid::Bool(v)),
        Editable::Pair { first, second, remaining } => Err(Invalid::Sequence),
    }
}

} // verus!
