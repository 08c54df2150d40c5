//! Pixel buffers of one colour, and the sample picture: a white square with
//! a few dark pixels at the start of its first row.

use vstd::prelude::*;

verus! {

/// Width of the sample picture, in pixels.
pub const SAMPLE_WIDTH: usize = 64;

/// Height of the sample picture, in pixels.
pub const SAMPLE_HEIGHT: usize = 64;

/// The packed pixel for white, the background of the sample picture.
pub const WHITE: u32 = 0xFF_FFFF;

/// A buffer of `count` pixels, every one of them `color`.
pub open spec fn solid_pixels(count: nat, color: u32) -> Seq<u32> {
    Seq::new(count, |i: int| color)
}

/// The pixels that the sample picture sets at the start of its buffer.
pub open spec fn sample_marks() -> Seq<u32> {
    seq![
        0x00_0010u32,
        0x00_0010u32,
        0x00_0010u32,
        0x00_0010u32,
        0x00_0010u32,
        0x00_0012u32,
        0x10_0010u32,
        0x01_1100u32,
        0x00_0000u32,
        0x00_0000u32,
    ]
}

/// The sample picture: 64 by 64 pixels, white but for the marks, which take
/// the first ten places of the buffer.
pub open spec fn sample_pixels() -> Seq<u32> {
    Seq::new(
        (SAMPLE_WIDTH * SAMPLE_HEIGHT) as nat,
        |i: int|
            if i < sample_marks().len() {
                sample_marks()[i]
            } else {
                WHITE
            },
    )
}

/// A buffer for a `width` by `height` image, filled with `color`.
pub fn solid_canvas(width: usize, height: usize, color: u32) -> (pixels: Vec<u32>)
    requires
        width * height <= usize::MAX,
    ensures
        pixels@ == solid_pixels((width * height) as nat, color),
        pixels.len() == width * height,
{
    let count: usize = width * height;
    let mut pixels: Vec<u32> = Vec::new();
    while pixels.len() < count
        invariant
            pixels.len() <= count,
            pixels@ == solid_pixels(pixels.len() as nat, color),
        decreases count - pixels.len(),
    {
        pixels.push(color);
    }
    pixels
}

/// The buffer of the sample picture.
pub fn sample_canvas() -> (pixels: Vec<u32>)
    ensures
        pixels@ == sample_pixels(),
        pixels.len() == SAMPLE_WIDTH * SAMPLE_HEIGHT,
{
    let mut pixels = solid_canvas(SAMPLE_WIDTH, SAMPLE_HEIGHT, WHITE);
    pixels.set(0, 0x00_0010);
    pixels.set(1, 0x00_0010);
    pixels.set(2, 0x00_0010);
    pixels.set(3, 0x00_0010);
    pixels.set(4, 0x00_0010);
    pixels.set(5, 0x00_0012);
    pixels.set(6, 0x10_0010);
    pixels.set(7, 0x01_1100);
    pixels.set(8, 0x00_0000);
    pixels.set(9, 0x00_0000);
    pixels
}

} // verus!
