//! The packed fields of a BRCAD in the editable form of a document: which
//! values each field accepts there, what word it makes of them, and what it
//! shows of its word.
//!
//! A field may stand in the editable form as it was written by an older
//! version, as the plain number of its word, or in its newer shape; both are
//! read.
use vstd::prelude::*;

/// The position of an animation step: two signed 16-bit numbers in one word
pub mod pos_xy;
/// The flag of a BRCAD that says whether its parts use texture variations
pub mod use_variation;
/// The texture variation of a part
pub mod variation_num;

verus! {

/// A value of the editable form that is offered to a packed field.
#[derive(Clone, Copy, Debug, PartialEq, Eq, Structural)]
pub enum Editable {
    /// An unsigned number of 32 bits.
    U32(u32),
    /// A signed number of 32 bits.
    I32(i32),
    /// An unsigned number of 64 bits.
    U64(u64),
    /// A signed number of 64 bits.
    I64(i64),
    /// A truth value.
    Bool(bool),
    /// A sequence of signed 16-bit numbers: its first and its second item,
    /// where it has them, and how many items follow them, where that is
    /// known.
    Pair { first: Option<i16>, second: Option<i16>, remaining: Option<usize> },
}

/// Why a packed field does not accept a value of the editable form.
#[derive(Clone, Copy, Debug, PartialEq, Eq, Structural)]
pub enum Invalid {
    /// The unsigned number is not of a type that the field accepts.
    Unsigned(u64),
    /// The signed number is not of a type that the field accepts.
    Signed(i64),
    /// A truth value is not of a type that the field accepts.
    Bool(bool),
    /// A sequence is not of a type that the field accepts.
    Sequence,
    /// The sequence has this many items, and not as many as the field needs.
    Length(usize),
}

} // verus!
