//! How a binary PPM stream is read back, written as spec functions, and the
//! proof that reading what the encoder writes gives the image back.
//!
//! Nothing here is executable: the library encodes only. The reader exists so
//! that the encoder can be held to it.

use crate::color::{lemma_same_color_iff_same_low_bits, Rgb};
use crate::decimal::{
    decimal_digits, decimal_value, is_digit, lemma_decimal_digits_canonical,
    lemma_decimal_value_of_digits,
};
use crate::encode::{pixel_bytes, ppm_bytes};
use crate::header::{header_bytes, magic, max_value_line, SPACE};
use vstd::prelude::*;

verus! {

/// An image as a reader sees it: its dimensions and the colour of each
/// pixel, row after row.
pub struct Picture {
    pub width: nat,
    pub height: nat,
    pub colors: Seq<Rgb>,
}

/// The picture that a buffer of packed pixels holds.
pub open spec fn picture_of(pixels: Seq<u32>, width: nat, height: nat) -> Picture {
    Picture { width, height, colors: Seq::new(width * height, |i: int| Rgb::unpack(pixels[i])) }
}

/// The end of the run of digits that starts at `from`: the index of the first
/// byte at or after `from` that is no digit, or the length of `bytes`.
pub open spec fn digits_end(bytes: Seq<u8>, from: int) -> int
    decreases bytes.len() - from,
{
    if 0 <= from < bytes.len() && is_digit(bytes[from]) {
        digits_end(bytes, from + 1)
    } else {
        from
    }
}

/// Reads the header at the start of `bytes`: the magic number and a line feed,
/// a run of digits, one space, a run of digits, then a space, `255` and a line
/// feed. Gives the width, the height and the index of the first byte after the
/// header, or `None` where `bytes` does not start so.
pub open spec fn read_header(bytes: Seq<u8>) -> Option<(nat, nat, int)> {
    let width_end = digits_end(bytes, 3);
    let height_end = digits_end(bytes, width_end + 1);
    if bytes.len() >= 3 && bytes.subrange(0, 3) == magic() && 3 < width_end < bytes.len()
        && bytes[width_end] == SPACE && width_end + 1 < height_end && height_end + 5
        <= bytes.len() && bytes.subrange(height_end, height_end + 5) == max_value_line() {
        Some(
            (
                decimal_value(bytes.subrange(3, width_end)),
                decimal_value(bytes.subrange(width_end + 1, height_end)),
                height_end + 5,
            ),
        )
    } else {
        None
    }
}

/// Reads a whole stream: the header, then exactly three bytes for each of the
/// `width * height` pixels, as red, green, blue. `None` where the header is
/// malformed or the pixel data has another length.
pub open spec fn read_ppm(bytes: Seq<u8>) -> Option<Picture> {
    match read_header(bytes) {
        Some((width, height, start)) => {
            if bytes.len() == start + 3 * (width * height) {
                Some(
                    Picture {
                        width,
                        height,
                        colors: Seq::new(
                            width * height,
                            |i: int|
                                Rgb {
                                    red: bytes[start + 3 * i],
                                    green: bytes[start + 3 * i + 1],
                                    blue: bytes[start + 3 * i + 2],
                                },
                        ),
                    },
                )
            } else {
                None
            }
        },
        None => None,
    }
}

/// A run of digits that is followed by a byte that is no digit, or by the end
/// of the input, ends there.
proof fn lemma_digits_end(bytes: Seq<u8>, from: int, to: int)
    requires
        0 <= from <= to <= bytes.len(),
        forall|i: int| from <= i < to ==> is_digit(#[trigger] bytes[i]),
        to < bytes.len() ==> !is_digit(bytes[to]),
    ensures
        digits_end(bytes, from) == to,
    decreases to - from,
{
    if from < to {
        assert(is_digit(bytes[from]));
        lemma_digits_end(bytes, from + 1, to);
    }
}

/// Reading the header of an encoded image gives its dimensions, and the
/// pixel data starts right after the header.
pub proof fn lemma_header_round_trip(pixels: Seq<u32>, width: nat, height: nat)
    ensures
        read_header(ppm_bytes(pixels, width, height)) == Some(
            (width, height, header_bytes(width, height).len() as int),
        ),
{
    let stream = ppm_bytes(pixels, width, height);
    let w = decimal_digits(width);
    let h = decimal_digits(height);
    let width_end = 3 + w.len() as int;
    let height_end = width_end + 1 + h.len() as int;
    lemma_decimal_digits_canonical(width);
    lemma_decimal_digits_canonical(height);
    lemma_decimal_value_of_digits(width);
    lemma_decimal_value_of_digits(height);
    assert(stream.subrange(0, 3) =~= magic());
    assert forall|i: int| 3 <= i < width_end implies is_digit(#[trigger] stream[i]) by {
        assert(stream[i] == w[i - 3]);
    }
    assert(stream[width_end] == SPACE);
    lemma_digits_end(stream, 3, width_end);
    assert forall|i: int| width_end + 1 <= i < height_end implies is_digit(
        #[trigger] stream[i],
    ) by {
        assert(stream[i] == h[i - width_end - 1]);
    }
    assert(stream[height_end] == SPACE);
    lemma_digits_end(stream, width_end + 1, height_end);
    assert(stream.subrange(height_end, height_end + 5) =~= max_value_line());
    assert(stream.subrange(3, width_end) =~= w);
    assert(stream.subrange(width_end + 1, height_end) =~= h);
}

/// Round trip: reading the stream of an image gives back its dimensions and,
/// for every pixel, the colour that its packed value stands for.
pub proof fn lemma_round_trip(pixels: Seq<u32>, width: nat, height: nat)
    ensures
        read_ppm(ppm_bytes(pixels, width, height)) == Some(picture_of(pixels, width, height)),
{
    let stream = ppm_bytes(pixels, width, height);
    let start = header_bytes(width, height).len() as int;
    let data = pixel_bytes(pixels, width * height);
    lemma_header_round_trip(pixels, width, height);
    let read = read_ppm(stream)->Some_0;
    assert forall|i: int| 0 <= i < width * height implies read.colors[i] == Rgb::unpack(
        pixels[i],
    ) by {
        assert(stream[start + 3 * i] == data[3 * i]);
        assert(stream[start + 3 * i + 1] == data[3 * i + 1]);
        assert(stream[start + 3 * i + 2] == data[3 * i + 2]);
    }
    assert(read.colors =~= picture_of(pixels, width, height).colors);
}

/// The stream tells the picture: two images with the same stream have the
/// same dimensions and the same colours, so their pixels agree in the low
/// 24 bits.
pub proof fn lemma_stream_determines_picture(
    a: Seq<u32>,
    a_width: nat,
    a_height: nat,
    b: Seq<u32>,
    b_width: nat,
    b_height: nat,
)
    requires
        ppm_bytes(a, a_width, a_height) == ppm_bytes(b, b_width, b_height),
    ensures
        a_width == b_width,
        a_height == b_height,
        picture_of(a, a_width, a_height) == picture_of(b, b_width, b_height),
        forall|i: int|
            0 <= i < a_width * a_height ==> a[i] & 0xFF_FFFF == b[i] & 0xFF_FFFF,
{
    lemma_round_trip(a, a_width, a_height);
    lemma_round_trip(b, b_width, b_height);
    let pa = picture_of(a, a_width, a_height);
    let pb = picture_of(b, b_width, b_height);
    assert forall|i: int| 0 <= i < a_width * a_height implies a[i] & 0xFF_FFFF == b[i]
        & 0xFF_FFFF by {
        assert(pa.colors[i] == pb.colors[i]);
        lemma_same_color_iff_same_low_bits(a[i], b[i]);
    }
}

} // verus!
