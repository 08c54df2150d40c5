//! The encoder: from a pixel buffer and its dimensions to the bytes of a
//! binary PPM stream.

use crate::color::{lemma_same_color_iff_same_low_bits, Rgb};
use crate::decimal::decimal_digits;
use crate::header::{append_header, header_bytes};
use vstd::prelude::*;

verus! {

/// The pixel data of the first `count` pixels: three bytes for each pixel, in
/// the order of the buffer, with nothing between them. Byte `k` is channel
/// `k % 3` of pixel `k / 3`.
pub open spec fn pixel_bytes(pixels: Seq<u32>, count: nat) -> Seq<u8> {
    Seq::new(3 * count, |k: int| Rgb::unpack(pixels[k / 3]).channel(k % 3))
}

/// The whole stream of a `width` by `height` image whose pixels are the
/// first `width * height` entries of `pixels`, row after row: the header,
/// then the pixel data.
pub open spec fn ppm_bytes(pixels: Seq<u32>, width: nat, height: nat) -> Seq<u8> {
    header_bytes(width, height) + pixel_bytes(pixels, width * height)
}

/// The place in a row-major buffer of the pixel in row `row` and column
/// `col` of an image `width` pixels wide.
pub open spec fn pixel_index(width: nat, row: nat, col: nat) -> nat {
    row * width + col
}

/// A cell of the grid lies inside the buffer, and the rows do not overlap.
pub proof fn lemma_pixel_index_in_range(width: nat, height: nat, row: nat, col: nat)
    requires
        row < height,
        col < width,
    ensures
        pixel_index(width, row, col) < width * height,
        pixel_index(width, row, col) < pixel_index(width, row + 1, 0),
        pixel_index(width, row + 1, 0) <= width * height,
{
    assert((row + 1) * width <= height * width) by (nonlinear_arith)
        requires
            row + 1 <= height,
    ;
    assert((row + 1) * width == row * width + width) by (nonlinear_arith);
}

/// Appending the three channels of the next pixel extends the pixel data by
/// one pixel.
proof fn lemma_pixel_bytes_step(pixels: Seq<u32>, count: nat)
    ensures
        pixel_bytes(pixels, count + 1) == pixel_bytes(pixels, count).push(
            Rgb::unpack(pixels[count as int]).red,
        ).push(Rgb::unpack(pixels[count as int]).green).push(
            Rgb::unpack(pixels[count as int]).blue,
        ),
{
    let longer = pixel_bytes(pixels, count + 1);
    let color = Rgb::unpack(pixels[count as int]);
    let pushed = pixel_bytes(pixels, count).push(color.red).push(color.green).push(color.blue);
    assert forall|k: int| 0 <= k < longer.len() implies longer[k] == pushed[k] by {
        if k >= 3 * count {
            assert(k / 3 == count);
        }
    }
    assert(longer =~= pushed);
}

/// Whether `pixels` holds an image of the given dimensions, that is, at
/// least `width * height` pixels: what `encode_ppm` asks of its arguments.
pub fn holds_image(pixels: &[u32], height: usize, width: usize) -> (enough: bool)
    ensures
        enough == (width * height <= pixels.len()),
{
    match width.checked_mul(height) {
        Some(count) => count <= pixels.len(),
        None => false,
    }
}

/// Encodes an image as a binary PPM stream.
///
/// `pixels` holds the image row after row, each pixel packed as `0xRRGGBB`;
/// entries after the first `width * height` are not read. The buffer must
/// hold at least `width * height` pixels. An image without pixels (a width or
/// a height of zero) has a header and no pixel data.
pub fn encode_ppm(pixels: &[u32], height: usize, width: usize) -> (out: Vec<u8>)
    requires
        width * height <= pixels.len(),
    ensures
        out@ == ppm_bytes(pixels@, width as nat, height as nat),
        out@.len() == header_bytes(width as nat, height as nat).len() + 3 * (width * height),
        out@.subrange(0, header_bytes(width as nat, height as nat).len() as int) == header_bytes(
            width as nat,
            height as nat,
        ),
{
    let mut out: Vec<u8> = Vec::new();
    append_header(&mut out, width, height);
    let ghost header = header_bytes(width as nat, height as nat);
    assert(pixel_bytes(pixels@, 0) =~= Seq::<u8>::empty());
    assert(pixel_index(width as nat, 0, 0) == 0) by (nonlinear_arith);
    for row in 0..height
        invariant
            width * height <= pixels.len(),
            out@ == header + pixel_bytes(pixels@, pixel_index(width as nat, row as nat, 0)),
    {
        for col in 0..width
            invariant
                row < height,
                width * height <= pixels.len(),
                out@ == header + pixel_bytes(
                    pixels@,
                    pixel_index(width as nat, row as nat, col as nat),
                ),
        {
            proof {
                lemma_pixel_index_in_range(width as nat, height as nat, row as nat, col as nat);
                lemma_pixel_bytes_step(pixels@, pixel_index(width as nat, row as nat, col as nat));
            }
            let color = Rgb::from_packed(pixels[row * width + col]);
            out.push(color.red);
            out.push(color.green);
            out.push(color.blue);
        }
        assert(pixel_index(width as nat, row as nat, width as nat) == pixel_index(
            width as nat,
            (row + 1) as nat,
            0,
        )) by (nonlinear_arith);
    }
    assert(pixel_index(width as nat, height as nat, 0) == width * height) by (nonlinear_arith);
    out
}

/// The stream opens with the header for its dimensions, whatever the pixels.
pub proof fn lemma_stream_starts_with_header(pixels: Seq<u32>, width: nat, height: nat)
    ensures
        header_bytes(width, height).is_prefix_of(ppm_bytes(pixels, width, height)),
        ppm_bytes(pixels, width, height).subrange(0, header_bytes(width, height).len() as int)
            == header_bytes(width, height),
{
    let header = header_bytes(width, height);
    let stream = ppm_bytes(pixels, width, height);
    assert(stream.subrange(0, header.len() as int) =~= header);
}

/// The stream is as long as its header and three bytes for each pixel: nine
/// bytes of fixed text, the digits of the two dimensions, and the pixel data.
pub proof fn lemma_stream_len(pixels: Seq<u32>, width: nat, height: nat)
    ensures
        ppm_bytes(pixels, width, height).len() == header_bytes(width, height).len() + 3 * (width
            * height),
        header_bytes(width, height).len() == 9 + decimal_digits(width).len() + decimal_digits(
            height,
        ).len(),
        width == 0 || height == 0 ==> ppm_bytes(pixels, width, height) == header_bytes(
            width,
            height,
        ),
{
    if width == 0 || height == 0 {
        assert(width * height == 0) by (nonlinear_arith)
            requires
                width == 0 || height == 0,
        ;
        assert(ppm_bytes(pixels, width, height) =~= header_bytes(width, height));
    }
}

/// Row-major order: the pixel in row `row` and column `col`, which the buffer
/// holds at index `row * width + col`, fills the triplet of the same index in
/// the pixel data, as red, green, blue.
pub proof fn lemma_row_major(pixels: Seq<u32>, width: nat, height: nat, row: nat, col: nat)
    requires
        row < height,
        col < width,
    ensures
        pixel_index(width, row, col) < width * height,
        ({
            let stream = ppm_bytes(pixels, width, height);
            let index = pixel_index(width, row, col) as int;
            let start = header_bytes(width, height).len() + 3 * index;
            let color = Rgb::unpack(pixels[index]);
            &&& start + 3 <= stream.len()
            &&& stream[start] == color.red
            &&& stream[start + 1] == color.green
            &&& stream[start + 2] == color.blue
        }),
{
    lemma_pixel_index_in_range(width, height, row, col);
    let index = pixel_index(width, row, col) as int;
    let data = pixel_bytes(pixels, width * height);
    assert((3 * index) / 3 == index && (3 * index + 1) / 3 == index && (3 * index + 2) / 3
        == index);
    assert(data[3 * index] == Rgb::unpack(pixels[index]).channel(0));
    assert(data[3 * index + 1] == Rgb::unpack(pixels[index]).channel(1));
    assert(data[3 * index + 2] == Rgb::unpack(pixels[index]).channel(2));
}

/// The stream is a function of the dimensions and of the low 24 bits of the
/// first `width * height` pixels: buffers that agree there encode to the same
/// bytes, so encoding an image again gives the same stream.
pub proof fn lemma_same_image_same_stream(a: Seq<u32>, b: Seq<u32>, width: nat, height: nat)
    requires
        forall|i: int| 0 <= i < width * height ==> a[i] & 0xFF_FFFF == b[i] & 0xFF_FFFF,
    ensures
        ppm_bytes(a, width, height) == ppm_bytes(b, width, height),
{
    let count = width * height;
    assert forall|k: int| 0 <= k < 3 * count implies pixel_bytes(a, count)[k] == pixel_bytes(
        b,
        count,
    )[k] by {
        lemma_same_color_iff_same_low_bits(a[k / 3], b[k / 3]);
    }
    assert(pixel_bytes(a, count) =~= pixel_bytes(b, count));
}

} // verus!
