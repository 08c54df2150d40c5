//! The textual header that opens a binary PPM stream.

use crate::decimal::{append_decimal, decimal_digits};
use vstd::prelude::*;

verus! {

/// ASCII `P`.
pub const LETTER_P: u8 = 0x50;

/// ASCII `6`.
pub const DIGIT_SIX: u8 = 0x36;

/// ASCII `2`.
pub const DIGIT_TWO: u8 = 0x32;

/// ASCII `5`.
pub const DIGIT_FIVE: u8 = 0x35;

/// The ASCII space that parts the numbers of the header.
pub const SPACE: u8 = 0x20;

/// The line feed that ends each line of the header.
pub const NEWLINE: u8 = 0x0A;

/// The magic number `P6` and the line feed after it.
pub open spec fn magic() -> Seq<u8> {
    seq![LETTER_P, DIGIT_SIX, NEWLINE]
}

/// What follows the height: a space, the greatest channel value `255`, and a
/// line feed.
pub open spec fn max_value_line() -> Seq<u8> {
    seq![SPACE, DIGIT_TWO, DIGIT_FIVE, DIGIT_FIVE, NEWLINE]
}

/// The header of an image `width` pixels wide and `height` pixels high: the
/// text `P6`, a line feed, the width, a space, the height, a space, `255` and
/// a line feed, the two numbers as decimal numerals.
pub open spec fn header_bytes(width: nat, height: nat) -> Seq<u8> {
    magic() + decimal_digits(width) + seq![SPACE] + decimal_digits(height) + max_value_line()
}

/// Appends the header for the given dimensions to `out`.
pub fn append_header(out: &mut Vec<u8>, width: usize, height: usize)
    ensures
        final(out)@ == old(out)@ + header_bytes(width as nat, height as nat),
{
    out.push(LETTER_P);
    out.push(DIGIT_SIX);
    out.push(NEWLINE);
    append_decimal(out, width);
    out.push(SPACE);
    append_decimal(out, height);
    out.push(SPACE);
    out.push(DIGIT_TWO);
    out.push(DIGIT_FIVE);
    out.push(DIGIT_FIVE);
    out.push(NEWLINE);
}

/// The fixed parts of the header spell the text `P6`, line feed, and space,
/// `255`, line feed.
pub proof fn lemma_header_text()
    ensures
        magic() == "P6\n"@.map_values(|c: char| c as u8),
        max_value_line() == " 255\n"@.map_values(|c: char| c as u8),
{
    reveal_strlit("P6\n");
    reveal_strlit(" 255\n");
}

} // verus!
