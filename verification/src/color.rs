//! Colours: triples of channel intensities.

use vstd::prelude::*;
use crate::scalar::{Scalar, ONE_BITS};

verus! {

/// The bit pattern of 255, the largest value of a byte.
pub const FULL_SCALE_BITS: u32 = 0x437f_0000;

/// A colour by its red, green and blue intensities. Intensities are not
/// clamped: a light source may be brighter than 1.
#[derive(Clone, Copy, Debug, PartialEq, Eq, Structural)]
pub struct Color {
    pub r: Scalar,
    pub g: Scalar,
    pub b: Scalar,
}

/// The colour whose three channels hold the given bit patterns.
pub open spec fn color_of_bits(r: u32, g: u32, b: u32) -> Color {
    Color { r: Scalar { bits: r }, g: Scalar { bits: g }, b: Scalar { bits: b } }
}

impl Color {
    pub fn new(r: Scalar, g: Scalar, b: Scalar) -> (c: Color)
        ensures
            c == (Color { r, g, b }),
    {
        Color { r, g, b }
    }

    /// No light: every channel is zero.
    pub fn black() -> (c: Color)
        ensures
            c == color_of_bits(0, 0, 0),
    {
        Color { r: Scalar::zero(), g: Scalar::zero(), b: Scalar::zero() }
    }

    /// Every channel is one.
    pub fn white() -> (c: Color)
        ensures
            c == color_of_bits(ONE_BITS, ONE_BITS, ONE_BITS),
    {
        Color { r: Scalar::one(), g: Scalar::one(), b: Scalar::one() }
    }

    /// A red channel of one and nothing else.
    pub fn red() -> (c: Color)
        ensures
            c == color_of_bits(ONE_BITS, 0, 0),
    {
        Color { r: Scalar::one(), g: Scalar::zero(), b: Scalar::zero() }
    }

    /// A green channel of one and nothing else.
    pub fn green() -> (c: Color)
        ensures
            c == color_of_bits(0, ONE_BITS, 0),
    {
        Color { r: Scalar::zero(), g: Scalar::one(), b: Scalar::zero() }
    }

    /// A blue channel of one and nothing else.
    pub fn blue() -> (c: Color)
        ensures
            c == color_of_bits(0, 0, ONE_BITS),
    {
        Color { r: Scalar::zero(), g: Scalar::zero(), b: Scalar::one() }
    }

    /// A channel held between zero and one. What is no number goes to zero.
    pub open spec fn unit_clamped(c: Scalar) -> Scalar {
        c.spec_max(Scalar { bits: 0 }).spec_min(Scalar { bits: ONE_BITS })
    }

    /// A channel of a colour scaled to the range of a byte, as a byte: the
    /// channel is held between 0 and 255 and its integer part is taken.
    pub open spec fn byte_of(c: Scalar) -> u8 {
        c.spec_max(Scalar { bits: 0 }).spec_min(Scalar { bits: FULL_SCALE_BITS }).spec_to_u8()
    }

    /// The three channels as bytes, red first. The colour is taken to be
    /// scaled to the range of a byte already: a channel of 255 is full
    /// intensity.
    pub fn to_slice(&self) -> (bytes: [u8; 3])
        ensures
            bytes@ == seq![Self::byte_of(self.r), Self::byte_of(self.g), Self::byte_of(self.b)],
    {
        let full = Scalar::from_bits(FULL_SCALE_BITS);
        [
            self.r.max(Scalar::zero()).min(full).to_u8(),
            self.g.max(Scalar::zero()).min(full).to_u8(),
            self.b.max(Scalar::zero()).min(full).to_u8(),
        ]
    }

    /// The three channels, each held between zero and one, red first.
    pub fn to_vec_f32(&self) -> (v: Vec<Scalar>)
        ensures
            v@ == seq![
                Self::unit_clamped(self.r),
                Self::unit_clamped(self.g),
                Self::unit_clamped(self.b),
            ],
    {
        let mut v: Vec<Scalar> = Vec::new();
        v.push(self.r.max(Scalar::zero()).min(Scalar::one()));
        v.push(self.g.max(Scalar::zero()).min(Scalar::one()));
        v.push(self.b.max(Scalar::zero()).min(Scalar::one()));
        v
    }

    /// The three channels as bytes, red first, of a colour scaled to the
    /// range of a byte.
    pub fn to_vec_u8(&self) -> (v: Vec<u8>)
        ensures
            v@ == seq![Self::byte_of(self.r), Self::byte_of(self.g), Self::byte_of(self.b)],
    {
        let bytes = self.to_slice();
        let mut v: Vec<u8> = Vec::new();
        v.push(bytes[0]);
        v.push(bytes[1]);
        v.push(bytes[2]);
        v
    }
}

} // verus!
