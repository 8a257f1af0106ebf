//! Colour values attached to widgets, and their hexadecimal form.

use vstd::prelude::*;

verus! {

/// Colour with red, green and blue parts plus an alpha channel.
///
/// Each part is meant to lie in the range 0 to 255, where 0 is the
/// non-colour (black, or fully transparent for the alpha channel) and
/// 255 the full colour (or fully visible).
#[derive(Debug, Copy, Clone, PartialEq, Eq, Structural)]
pub struct RGBA {
    /// Red part of the colour.
    pub r: u32,
    /// Green part of the colour.
    pub g: u32,
    /// Blue part of the colour.
    pub b: u32,
    /// Alpha channel of the colour.
    pub a: u32,
}

impl RGBA {
    /// The fully transparent colour: every part at zero.
    pub open spec fn transparent() -> RGBA {
        RGBA { r: 0, g: 0, b: 0, a: 0 }
    }

    /// Creates a new colour from its four parts.
    pub fn new(r: u32, g: u32, b: u32, a: u32) -> (c: Self)
        ensures
            c == (RGBA { r, g, b, a }),
    {
        RGBA { r, g, b, a }
    }

    /// Creates a colour from a hexadecimal value with an alpha channel,
    /// reading the bytes as red, green, blue then alpha.
    pub fn from_hex(value: u32) -> (c: Self)
        ensures
            c.r == ((value >> 24u32) & 0xFFu32) / 255u32,
            c.g == ((value >> 16u32) & 0xFFu32) / 255u32,
            c.b == ((value >> 8u32) & 0xFFu32) / 255u32,
            c.a == (value & 0xFFu32) / 255u32,
    {
        RGBA {
            r: ((value >> 24u32) & 0xFFu32) / 255u32,
            g: ((value >> 16u32) & 0xFFu32) / 255u32,
            b: ((value >> 8u32) & 0xFFu32) / 255u32,
            a: (value & 0xFFu32) / 255u32,
        }
    }

    /// Whether every part of the colour is zero.
    pub open spec fn is_transparent(self) -> bool {
        self == RGBA::transparent()
    }

    /// Packs the four parts into one hexadecimal value, alpha first.
    pub fn to_hex(&self) -> (value: u32)
        ensures
            value == (self.a << 24u32) | (self.b << 16u32) | (self.g << 8u32) | self.r,
    {
        (self.a << 24u32) | (self.b << 16u32) | (self.g << 8u32) | self.r
    }
}

impl Default for RGBA {
    /// The default colour is fully transparent.
    fn default() -> (c: Self)
        ensures
            c == RGBA::transparent(),
    {
        RGBA { r: 0, g: 0, b: 0, a: 0 }
    }
}

} // verus!
