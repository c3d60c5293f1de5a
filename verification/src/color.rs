//! Packed 24-bit colours as they travel in redraw events.

use vstd::prelude::*;

verus! {

/// A colour with one byte per channel.
#[derive(Clone, Copy, Debug, PartialEq, Eq, Structural)]
pub struct Color {
    pub r: u8,
    pub g: u8,
    pub b: u8,
    pub a: u8,
}

/// The alpha value of a fully opaque colour.
pub const OPAQUE: u8 = 255;

impl Color {
    /// The colour channels packed as `0xRRGGBB`.
    pub open spec fn spec_rgb_bits(self) -> int {
        self.r as int * 0x1_0000 + self.g as int * 0x100 + self.b as int
    }

    /// The channels and alpha packed as `0xRRGGBBAA`.
    pub open spec fn spec_rgba_bits(self) -> int {
        self.spec_rgb_bits() * 0x100 + self.a as int
    }

    pub open spec fn is_opaque(self) -> bool {
        self.a == OPAQUE
    }

    /// Packs the three colour channels back into `0xRRGGBB`.
    pub fn rgb_bits(&self) -> (bits: u32)
        ensures
            bits as int == self.spec_rgb_bits(),
            bits <= 0xFF_FFFF,
    {
        let r: u32 = self.r as u32;
        let g: u32 = self.g as u32;
        let b: u32 = self.b as u32;
        r * 0x1_0000 + g * 0x100 + b
    }

    /// Packs all four channels into `0xRRGGBBAA`.
    pub fn rgba_bits(&self) -> (bits: u32)
        ensures
            bits as int == self.spec_rgba_bits(),
    {
        let a: u32 = self.a as u32;
        self.rgb_bits() * 0x100 + a
    }
}

/// The opaque colour whose channels are the low 24 bits of `packed`, read as
/// `0xRRGGBB`. Higher bits do not matter.
pub open spec fn unpacked(packed: u64) -> Color {
    Color {
        r: ((packed as int / 0x1_0000) % 0x100) as u8,
        g: ((packed as int / 0x100) % 0x100) as u8,
        b: (packed as int % 0x100) as u8,
        a: OPAQUE,
    }
}

/// Unpacking keeps exactly the low 24 bits and always gives an opaque colour.
pub proof fn lemma_unpack_keeps_low_24_bits(packed: u64)
    ensures
        unpacked(packed).spec_rgb_bits() == (packed & 0xFF_FFFF) as int,
        unpacked(packed).spec_rgb_bits() == packed as int % 0x100_0000,
        unpacked(packed).is_opaque(),
{
    let r: u64 = (packed >> 16) & 0xff;
    let g: u64 = (packed >> 8) & 0xff;
    let b: u64 = packed & 0xff;
    assert(r == (packed / 0x1_0000) % 0x100 && g == (packed / 0x100) % 0x100 && b == packed % 0x100
        && (packed & 0xFF_FFFF) == r * 0x1_0000 + g * 0x100 + b
        && (packed & 0xFF_FFFF) == packed % 0x100_0000) by (bit_vector)
        requires
            r == (packed >> 16) & 0xff,
            g == (packed >> 8) & 0xff,
            b == packed & 0xff,
    ;
}

/// Only the low 24 bits of the packed value reach the colour.
pub proof fn lemma_unpack_ignores_high_bits(x: u64, y: u64)
    requires
        x & 0xFF_FFFF == y & 0xFF_FFFF,
    ensures
        unpacked(x) == unpacked(y),
{
    assert((x / 0x1_0000) % 0x100 == (y / 0x1_0000) % 0x100 && (x / 0x100) % 0x100 == (y / 0x100)
        % 0x100 && x % 0x100 == y % 0x100) by (bit_vector)
        requires
            x & 0xFF_FFFF == y & 0xFF_FFFF,
    ;
}

/// Decodes a packed `0xRRGGBB` colour; the result is fully opaque.
pub fn unpack_color(packed: u64) -> (color: Color)
    ensures
        color == unpacked(packed),
        color.spec_rgb_bits() == (packed & 0xFF_FFFF) as int,
        color.spec_rgba_bits() == (packed & 0xFF_FFFF) as int * 0x100 + 0xFF,
        color.is_opaque(),
{
    let r: u64 = (packed >> 16) & 0xff;
    let g: u64 = (packed >> 8) & 0xff;
    let b: u64 = packed & 0xff;
    assert(r == (packed / 0x1_0000) % 0x100 && g == (packed / 0x100) % 0x100 && b == packed % 0x100
        && r < 256 && g < 256 && b < 256) by (bit_vector)
        requires
            r == (packed >> 16) & 0xff,
            g == (packed >> 8) & 0xff,
            b == packed & 0xff,
    ;
    proof {
        lemma_unpack_keeps_low_24_bits(packed);
    }
    Color { r: r as u8, g: g as u8, b: b as u8, a: OPAQUE }
}

} // verus!
