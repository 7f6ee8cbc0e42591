//! Data types and codecs for the BXCAD family of cell-animation files:
//! BCCAD (little-endian) and BRCAD (big-endian).
//!
//! A document is read from a [`bytestream_addon::Reader`] over the bytes of a
//! file with [`BXCAD::from_binary`] and written back with
//! [`BXCAD::to_binary`]. Every function of the crate carries a contract that
//! is checked by Verus.
use vstd::prelude::*;

pub mod bxcad;
pub mod bytestream_addon;
pub mod conversion;
pub mod error;

pub use bxcad::bccad::BCCAD;
pub use bxcad::brcad::BRCAD;
pub use bxcad::BXCAD;

verus! {

/// RGB color
#[derive(Clone, Copy, Debug, PartialEq, Eq, Structural)]
pub struct Color {
    pub red: u8,
    pub blue: u8,
    pub green: u8,
}

impl View for Color {
    type V = Color;

    open spec fn view(&self) -> Color {
        *self
    }
}

/// A number in IEEE 754 single precision, held as its 32 bits.
///
/// The files store such numbers, and this crate hands them on bit for bit.
#[derive(Clone, Copy, Debug, PartialEq, Eq, Structural)]
pub struct FloatBits {
    /// The sign, the exponent and the fraction, most significant bit first.
    pub bits: u32,
}

impl View for FloatBits {
    type V = FloatBits;

    open spec fn view(&self) -> FloatBits {
        *self
    }
}

impl FloatBits {
    /// The exponent field: 0 for zero and the subnormal numbers, 255 for the
    /// infinities and what is not a number.
    pub open spec fn exponent(self) -> u32 {
        (self.bits >> 23) & 0xff
    }

    /// The bits without the sign.
    pub open spec fn magnitude(self) -> u32 {
        self.bits & 0x7fff_ffff
    }

    /// The bit of the sign, at its place.
    pub open spec fn sign(self) -> u32 {
        self.bits & 0x8000_0000
    }

    /// What is not a number, made quiet; an infinity stays as it is.
    pub open spec fn quieted(self) -> FloatBits {
        if self.magnitude() == 0x7f80_0000 {
            self
        } else {
            FloatBits { bits: self.bits | 0x0040_0000 }
        }
    }

    /// Half of the number. A normal number whose half is normal has its
    /// exponent lowered by one. Below that the fraction is shifted to the
    /// right, and a result that lies halfway between two numbers is rounded
    /// to the one whose last bit is 0.
    pub open spec fn halved(self) -> FloatBits {
        if self.exponent() == 255 {
            self.quieted()
        } else if self.exponent() >= 2 {
            FloatBits { bits: (self.bits - 0x0080_0000) as u32 }
        } else {
            FloatBits {
                bits: self.sign() | (((self.magnitude() >> 1) + (self.magnitude() & (
                self.magnitude() >> 1) & 1)) as u32),
            }
        }
    }

    /// Twice the number. A normal number has its exponent raised by one,
    /// and becomes an infinity where there is no higher exponent; a
    /// subnormal number has its fraction shifted to the left.
    pub open spec fn doubled(self) -> FloatBits {
        if self.exponent() == 255 {
            self.quieted()
        } else if self.exponent() == 254 {
            FloatBits { bits: self.sign() | 0x7f80_0000 }
        } else if self.exponent() >= 1 {
            FloatBits { bits: (self.bits + 0x0080_0000) as u32 }
        } else {
            FloatBits { bits: self.sign() | (self.magnitude() << 1) }
        }
    }

    /// Computes half of the number.
    pub fn half(self) -> (r: FloatBits)
        ensures
            r == self.halved(),
    {
        let bits = self.bits;
        let exponent = (bits >> 23) & 0xff;
        let magnitude = bits & 0x7fff_ffff;
        let sign = bits & 0x8000_0000;
        if exponent == 255 {
            if magnitude == 0x7f80_0000 {
                self
            } else {
                FloatBits { bits: bits | 0x0040_0000 }
            }
        } else if exponent >= 2 {
            assert(bits >= 0x0080_0000) by (bit_vector)
                requires
                    (bits >> 23) & 0xff >= 2,
            ;
            FloatBits { bits: bits - 0x0080_0000 }
        } else {
            assert((magnitude >> 1) + (magnitude & (magnitude >> 1) & 1) <= 0x4000_0000)
                by (bit_vector)
                requires
                    magnitude == bits & 0x7fff_ffff,
            ;
            FloatBits { bits: sign | ((magnitude >> 1) + (magnitude & (magnitude >> 1) & 1)) }
        }
    }

    /// Computes twice the number.
    pub fn double(self) -> (r: FloatBits)
        ensures
            r == self.doubled(),
    {
        let bits = self.bits;
        let exponent = (bits >> 23) & 0xff;
        let magnitude = bits & 0x7fff_ffff;
        let sign = bits & 0x8000_0000;
        if exponent == 255 {
            if magnitude == 0x7f80_0000 {
                self
            } else {
                FloatBits { bits: bits | 0x0040_0000 }
            }
        } else if exponent == 254 {
            FloatBits { bits: sign | 0x7f80_0000 }
        } else if exponent >= 1 {
            assert((bits >> 23) & 0xff <= 255) by (bit_vector);
            assert(bits <= 0xffff_ffff - 0x0080_0000) by (bit_vector)
                requires
                    (bits >> 23) & 0xff < 254,
            ;
            FloatBits { bits: bits + 0x0080_0000 }
        } else {
            FloatBits { bits: sign | (magnitude << 1) }
        }
    }

    /// Twice the half of a number is the number, where the number is normal
    /// and so is its half.
    pub proof fn lemma_doubled_halved(self)
        requires
            2 <= self.exponent() <= 254,
        ensures
            self.halved().doubled() == self,
    {
        let bits = self.bits;
        let lower = (bits - 0x0080_0000) as u32;
        assert(bits >= 0x0080_0000 && ((bits - 0x0080_0000) as u32 >> 23) & 0xff == ((bits >> 23)
            & 0xff) - 1) by (bit_vector)
            requires
                2 <= (bits >> 23) & 0xff <= 254,
        ;
    }

    /// Half of twice a number is the number, where the number is normal and
    /// so is twice the number.
    pub proof fn lemma_halved_doubled(self)
        requires
            1 <= self.exponent() <= 253,
        ensures
            self.doubled().halved() == self,
    {
        let bits = self.bits;
        assert(bits <= 0xffff_ffff - 0x0080_0000 && ((bits + 0x0080_0000) as u32 >> 23) & 0xff
            == ((bits >> 23) & 0xff) + 1) by (bit_vector)
            requires
                1 <= (bits >> 23) & 0xff <= 253,
        ;
    }
}

/// Variable length string, used in BCCAD labels
///
/// Format is as follows:
///
/// * 1 byte for string size (n)
/// * n bytes for string contents
/// * Padded to 4 bytes
#[derive(Clone, Debug, PartialEq, Eq)]
pub struct VarLenString(pub String);

impl View for VarLenString {
    type V = Seq<char>;

    open spec fn view(&self) -> Seq<char> {
        self.0@
    }
}

} // verus!
