//! Packed pixels and their three colour channels.

use vstd::prelude::*;

verus! {

/// One pixel as the three bytes that a binary PPM stream stores for it.
#[derive(Clone, Copy, Debug, PartialEq, Eq, Structural)]
pub struct Rgb {
    pub red: u8,
    pub green: u8,
    pub blue: u8,
}

impl Rgb {
    /// The colour that a packed pixel `0xRRGGBB` stands for: red is bits 16
    /// to 23, green bits 8 to 15, blue bits 0 to 7. Bits 24 to 31 play no part.
    pub open spec fn unpack(pixel: u32) -> Rgb {
        Rgb {
            red: ((pixel >> 16) & 0xFF) as u8,
            green: ((pixel >> 8) & 0xFF) as u8,
            blue: (pixel & 0xFF) as u8,
        }
    }

    /// The packed pixel `0x00RRGGBB` made of the three channels.
    pub open spec fn packed(self) -> u32 {
        (self.red as u32) << 16 | (self.green as u32) << 8 | (self.blue as u32)
    }

    /// The channels in the order in which they are stored: 0 is red, 1 is
    /// green, 2 is blue.
    pub open spec fn channel(self, k: int) -> u8 {
        if k == 0 {
            self.red
        } else if k == 1 {
            self.green
        } else {
            self.blue
        }
    }

    /// Splits a packed pixel into its channels.
    pub fn from_packed(pixel: u32) -> (color: Rgb)
        ensures
            color == Rgb::unpack(pixel),
            color.red == (pixel >> 16) & 0xFF,
            color.green == (pixel >> 8) & 0xFF,
            color.blue == pixel & 0xFF,
    {
        assert((pixel >> 16) & 0xFF < 256 && (pixel >> 8) & 0xFF < 256 && pixel & 0xFF < 256)
            by (bit_vector);
        Rgb {
            red: ((pixel >> 16) & 0xFF) as u8,
            green: ((pixel >> 8) & 0xFF) as u8,
            blue: (pixel & 0xFF) as u8,
        }
    }
}

/// Each channel is the numeric value of its eight bits of the pixel; no
/// truncation takes part in it.
pub proof fn lemma_channels_are_masked_shifts(pixel: u32)
    ensures
        Rgb::unpack(pixel).red == (pixel >> 16) & 0xFF,
        Rgb::unpack(pixel).green == (pixel >> 8) & 0xFF,
        Rgb::unpack(pixel).blue == pixel & 0xFF,
        Rgb::unpack(pixel).red == (pixel / 0x1_0000) % 0x100,
        Rgb::unpack(pixel).green == (pixel / 0x100) % 0x100,
        Rgb::unpack(pixel).blue == pixel % 0x100,
{
    assert((pixel >> 16) & 0xFF == (pixel / 0x1_0000) % 0x100) by (bit_vector);
    assert((pixel >> 8) & 0xFF == (pixel / 0x100) % 0x100) by (bit_vector);
    assert(pixel & 0xFF == pixel % 0x100) by (bit_vector);
}

/// Unpacking and packing again keeps the low 24 bits of a pixel and clears
/// the rest: nothing of bits 24 to 31 reaches the channels.
pub proof fn lemma_unpack_then_pack(pixel: u32)
    ensures
        Rgb::unpack(pixel).packed() == pixel & 0xFF_FFFF,
        Rgb::unpack(pixel).packed() <= 0xFF_FFFF,
{
    assert(((((pixel >> 16) & 0xFF) as u8) as u32) << 16 | ((((pixel >> 8) & 0xFF) as u8) as u32)
        << 8 | (((pixel & 0xFF) as u8) as u32) == pixel & 0xFF_FFFF) by (bit_vector);
    assert(pixel & 0xFF_FFFF <= 0xFF_FFFF) by (bit_vector);
}

/// Packing a colour and unpacking the pixel gives the colour back.
pub proof fn lemma_pack_then_unpack(color: Rgb)
    ensures
        Rgb::unpack(color.packed()) == color,
{
    let r = color.red;
    let g = color.green;
    let b = color.blue;
    assert(((((r as u32) << 16 | (g as u32) << 8 | (b as u32)) >> 16) & 0xFF) as u8 == r)
        by (bit_vector);
    assert(((((r as u32) << 16 | (g as u32) << 8 | (b as u32)) >> 8) & 0xFF) as u8 == g)
        by (bit_vector);
    assert((((r as u32) << 16 | (g as u32) << 8 | (b as u32)) & 0xFF) as u8 == b) by (bit_vector);
}

/// Two pixels have the same colour exactly when their low 24 bits agree.
pub proof fn lemma_same_color_iff_same_low_bits(a: u32, b: u32)
    ensures
        Rgb::unpack(a) == Rgb::unpack(b) <==> a & 0xFF_FFFF == b & 0xFF_FFFF,
{
    lemma_unpack_then_pack(a);
    lemma_unpack_then_pack(b);
    if a & 0xFF_FFFF == b & 0xFF_FFFF {
        assert(a & 0xFF_FFFF == b & 0xFF_FFFF ==> {
            &&& ((a >> 16) & 0xFF) as u8 == ((b >> 16) & 0xFF) as u8
            &&& ((a >> 8) & 0xFF) as u8 == ((b >> 8) & 0xFF) as u8
            &&& (a & 0xFF) as u8 == (b & 0xFF) as u8
        }) by (bit_vector);
    }
}

} // verus!
