//! The position of an animation step in the editable form: a sequence of its
//! two numbers, X and Y. The word as one number, as older versions wrote it,
//! is read too.
use vstd::prelude::*;
use crate::bxcad::brcad::packed_pos;
use crate::bxcad::brcad::pos_half;
use crate::bxcad::brcad::AnimationStep;
use crate::bxcad::serde_impl::Editable;
use crate::bxcad::serde_impl::Invalid;

verus! {

/// Reads a position word from the editable form.
pub struct PosXYVisitor;

/// What is expected: "a sequence of two 16-bit signed integers or a 32-bit integer".
pub const UNEXPECTED: &'static str = "a sequence of two 16-bit signed integers or a 32-bit integer";

/// The word that a position is read as from a sequence: the two items packed,
/// where the sequence has exactly two.
pub open spec fn word_of_seq(
    first: Option<i16>,
    second: Option<i16>,
    remaining: Option<usize>,
) -> Result<u32, Invalid> {
    match (first, second, remaining) {
        (None, _, _) => Err(Invalid::Length(0)),
        (Some(_), None, _) => Err(Invalid::Length(1)),
        (Some(x), Some(y), Some(more)) => if more == 0 {
            Ok(packed_pos(x, y))
        } else {
            Err(Invalid::Length(if more <= usize::MAX - 2 {
                (more + 2) as usize
            } else {
                usize::MAX
            }))
        },
        (Some(x), Some(y), None) => Ok(packed_pos(x, y)),
    }
}

/// The word that a position is read as from the editable form: a number of
/// 32 bits is the word itself, a signed one in two's complement; a longer
/// number has to fit 32 bits; a sequence gives its two items packed.
pub open spec fn word_of(value: Editable) -> Result<u32, Invalid> {
    match value {
        Editable::U32(v) => Ok(v),
        Editable::I32(v) => Ok(v as u32),
        Editable::U64(v) => if v <= u32::MAX {
            Ok(v as u32)
        } else {
            Err(Invalid::Unsigned(v))
        },
        Editable::I64(v) => if i32::MIN <= v <= i32::MAX {
            Ok(v as i32 as u32)
        } else {
            Err(Invalid::Signed(v))
        },
        Editable::Bool(v) => Err(Invalid::Bool(v)),
        Editable::Pair { first, second, remaining } => word_of_seq(first, second, remaining),
    }
}

impl PosXYVisitor {
    /// The word as older versions wrote it.
    pub fn visit_u32(&self, v: u32) -> (r: Result<u32, Invalid>)
        ensures
            r == word_of(Editable::U32(v)),
    {
        Ok(v)
    }

    /// The word as older versions wrote it, where it was taken for signed.
    pub fn visit_i32(&self, v: i32) -> (r: Result<u32, Invalid>)
        ensures
            r == word_of(Editable::I32(v)),
    {
        Ok(#[verifier::truncate] (v as u32))
    }

    /// A number that has to fit 32 bits.
    pub fn visit_u64(&self, v: u64) -> (r: Result<u32, Invalid>)
        ensures
            r == word_of(Editable::U64(v)),
    {
        if v <= 0xffff_ffff {
            self.visit_u32(v as u32)
        } else {
            Err(Invalid::Unsigned(v))
        }
    }

    /// A signed number that has to fit 32 bits.
    pub fn visit_i64(&self, v: i64) -> (r: Result<u32, Invalid>)
        ensures
            r == word_of(Editable::I64(v)),
    {
        if -0x8000_0000 <= v && v <= 0x7fff_ffff {
            self.visit_i32(v as i32)
        } else {
            Err(Invalid::Signed(v))
        }
    }

    /// A sequence, which has to hold exactly two numbers: X and Y.
    pub fn visit_seq(
        &self,
        first: Option<i16>,
        second: Option<i16>,
        remaining: Option<usize>,
    ) -> (r: Result<u32, Invalid>)
        ensures
            r == word_of_seq(first, second, remaining),
    {
        let pos_x = match first {
            Some(pos_x) => pos_x,
            None => return Err(Invalid::Length(0)),
        };
        let pos_y = match second {
            Some(pos_y) => pos_y,
            None => return Err(Invalid::Length(1)),
        };
        // this way we can catch some errors where there's too many values
        if let Some(more) = remaining {
            if more != 0 {
                return Err(Invalid::Length(more.saturating_add(2)));
            }
        }
        let mut out = 0u32;
        AnimationStep::set_pos(&mut out, false, pos_x);
        AnimationStep::set_pos(&mut out, true, pos_y);
        Ok(out)
    }
}

/// What the editable form shows of a position word: X and Y.
pub fn serialize(value: &u32) -> (r: [i16; 2])
    ensures
        r[0] == pos_half(*value, false),
        r[1] == pos_half(*value, true),
{
    [AnimationStep::get_pos(value, false), AnimationStep::get_pos(value, true)]
}

/// Reads a position word from a value of the editable form.
pub fn deserialize(value: Editable) -> (r: Result<u32, Invalid>)
    ensures
        r == word_of(value),
{
    let visitor = PosXYVisitor;
    match value {
        Editable::U32(v) => visitor.visit_u32(v),
        Editable::I32(v) => visitor.visit_i32(v),
        Editable::U64(v) => visitor.visit_u64(v),
        Editable::I64(v) => visitor.visit_i64(v),
        Editable::Bool(v) => Err(Invalid::Bool(v)),
        Editable::Pair { first, second, remaining } => visitor.visit_seq(first, second, remaining),
    }
}

/// What was read from the shown form of a position word is the word.
pub proof fn lemma_shown_read_back(word: u32)
    ensures
        word_of_seq(Some(pos_half(word, false)), Some(pos_half(word, true)), None) == Ok::<
            u32,
            Invalid,
        >(word),
{
    let hi = (word >> 16) as u16;
    let lo = (word & 0xffff) as u16;
    assert((hi as i16) as u16 == hi) by (bit_vector);
    assert((lo as i16) as u16 == lo) by (bit_vector);
    assert(((hi as u32) << 16) | (lo as u32) == word) by (bit_vector)
        requires
            hi == (word >> 16) as u16,
            lo == (word & 0xffff) as u16,
    ;
}

} // verus!
