//! Encoder for binary Portable Pixmap (PPM) images, the variant whose magic
//! number is `P6`.
//!
//! An image is a flat, row-major buffer of packed `0xRRGGBB` pixels together
//! with its width and height. [`encode::encode_ppm`] turns it into the bytes
//! of such a file; every function here is verified against a mathematical
//! description of that byte stream.

pub mod color;
pub mod decimal;
pub mod encode;
pub mod header;
pub mod roundtrip;
pub mod sample;
