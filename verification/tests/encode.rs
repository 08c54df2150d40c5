use ppm::color::Rgb;
use ppm::encode::{encode_ppm, holds_image};

/// Reads a binary PPM stream the strict way: magic number, width, height, `255`, then
/// three bytes for each pixel and nothing more.
fn read_ppm(bytes: &[u8]) -> Option<(usize, usize, Vec<Rgb>)> {
    let rest = bytes.strip_prefix(b"P6\n")?;
    let width_len = rest.iter().take_while(|b| b.is_ascii_digit()).count();
    let width: usize = std::str::from_utf8(&rest[..width_len]).ok()?.parse().ok()?;
    let rest = rest[width_len..].strip_prefix(b" ")?;
    let height_len = rest.iter().take_while(|b| b.is_ascii_digit()).count();
    let height: usize = std::str::from_utf8(&rest[..height_len]).ok()?.parse().ok()?;
    let data = rest[height_len..].strip_prefix(b" 255\n")?;
    if data.len() != 3 * width * height {
        return None;
    }
    let colors = data
        .chunks(3)
        .map(|triplet| Rgb { red: triplet[0], green: triplet[1], blue: triplet[2] })
        .collect();
    Some((width, height, colors))
}

#[test]
fn two_by_two_image() {
    let pixels = [0xFF0000u32, 0x00FF00, 0x0000FF, 0xFFFFFF];
    let out = encode_ppm(&pixels, 2, 2);
    let mut expected = b"P6\n2 2 255\n".to_vec();
    expected.extend_from_slice(&[
        0xFF, 0x00, 0x00, 0x00, 0xFF, 0x00, 0x00, 0x00, 0xFF, 0xFF, 0xFF, 0xFF,
    ]);
    assert_eq!(out, expected);
}

#[test]
fn image_of_width_zero_is_a_header_alone() {
    assert_eq!(encode_ppm(&[], 5, 0), b"P6\n0 5 255\n".to_vec());
    assert_eq!(encode_ppm(&[1, 2, 3], 5, 0), b"P6\n0 5 255\n".to_vec());
}

#[test]
fn image_of_height_zero_is_a_header_alone() {
    assert_eq!(encode_ppm(&[], 0, 5), b"P6\n5 0 255\n".to_vec());
    assert_eq!(encode_ppm(&[1, 2, 3], 0, 5), b"P6\n5 0 255\n".to_vec());
}

#[test]
fn image_of_no_size_is_a_header_alone() {
    assert_eq!(encode_ppm(&[], 0, 0), b"P6\n0 0 255\n".to_vec());
}

#[test]
fn empty_image_of_huge_extent() {
    let expected = format!("P6\n0 {} 255\n", usize::MAX).into_bytes();
    assert_eq!(encode_ppm(&[], usize::MAX, 0), expected);
    let expected = format!("P6\n{} 0 255\n", usize::MAX).into_bytes();
    assert_eq!(encode_ppm(&[], 0, usize::MAX), expected);
}

#[test]
fn single_pixel() {
    let out = encode_ppm(&[0xAABBCC], 1, 1);
    let mut expected = b"P6\n1 1 255\n".to_vec();
    expected.extend_from_slice(&[0xAA, 0xBB, 0xCC]);
    assert_eq!(out, expected);
}

#[test]
fn stream_starts_with_the_header() {
    let sizes = [(1usize, 1usize), (3, 2), (2, 3), (10, 1), (1, 10), (12, 11), (100, 3)];
    for (width, height) in sizes {
        let pixels = vec![0x123456u32; width * height];
        let out = encode_ppm(&pixels, height, width);
        let header = format!("P6\n{} {} 255\n", width, height).into_bytes();
        assert!(out.starts_with(&header));
        assert_eq!(&out[..header.len()], &header[..]);
    }
}

#[test]
fn stream_length_is_header_and_three_bytes_a_pixel() {
    let sizes = [(0usize, 0usize), (1, 1), (3, 2), (2, 3), (10, 10), (64, 64), (100, 7)];
    for (width, height) in sizes {
        let pixels = vec![0u32; width * height];
        let out = encode_ppm(&pixels, height, width);
        let header = format!("P6\n{} {} 255\n", width, height);
        assert_eq!(out.len(), header.len() + 3 * width * height);
    }
    assert_eq!(encode_ppm(&vec![0u32; 64 * 64], 64, 64).len(), 13 + 12288);
}

#[test]
fn wide_image_is_written_row_after_row() {
    // Three columns, two rows.
    let pixels = [0x000001u32, 0x000002, 0x000003, 0x000004, 0x000005, 0x000006];
    let out = encode_ppm(&pixels, 2, 3);
    let mut expected = b"P6\n3 2 255\n".to_vec();
    expected.extend_from_slice(&[0, 0, 1, 0, 0, 2, 0, 0, 3, 0, 0, 4, 0, 0, 5, 0, 0, 6]);
    assert_eq!(out, expected);
}

#[test]
fn tall_image_is_written_row_after_row() {
    // Two columns, three rows.
    let pixels = [0x010000u32, 0x020000, 0x030000, 0x040000, 0x050000, 0x060000];
    let out = encode_ppm(&pixels, 3, 2);
    let mut expected = b"P6\n2 3 255\n".to_vec();
    expected.extend_from_slice(&[1, 0, 0, 2, 0, 0, 3, 0, 0, 4, 0, 0, 5, 0, 0, 6, 0, 0]);
    assert_eq!(out, expected);
}

#[test]
fn pixel_of_a_cell_fills_the_triplet_of_its_index() {
    let width = 5usize;
    let height = 4usize;
    let pixels: Vec<u32> = (0..width * height).map(|i| (i as u32) * 0x010203 + 0x070000).collect();
    let out = encode_ppm(&pixels, height, width);
    let start = b"P6\n5 4 255\n".len();
    for row in 0..height {
        for col in 0..width {
            let index = row * width + col;
            let pixel = pixels[index];
            let triplet = &out[start + 3 * index..start + 3 * index + 3];
            assert_eq!(u32::from(triplet[0]), (pixel >> 16) & 0xFF);
            assert_eq!(u32::from(triplet[1]), (pixel >> 8) & 0xFF);
            assert_eq!(u32::from(triplet[2]), pixel & 0xFF);
        }
    }
}

#[test]
fn channels_are_written_as_red_green_blue() {
    let out = encode_ppm(&[0x112233, 0x445566], 1, 2);
    let mut expected = b"P6\n2 1 255\n".to_vec();
    expected.extend_from_slice(&[0x11, 0x22, 0x33, 0x44, 0x55, 0x66]);
    assert_eq!(out, expected);
}

#[test]
fn top_byte_of_a_pixel_never_reaches_the_stream() {
    let plain = encode_ppm(&[0x00123456, 0x00ABCDEF], 1, 2);
    let marked = encode_ppm(&[0xFF123456, 0x80ABCDEF], 1, 2);
    assert_eq!(plain, marked);
    let start = b"P6\n2 1 255\n".len();
    assert_eq!(&marked[start..], &[0x12, 0x34, 0x56, 0xAB, 0xCD, 0xEF]);
}

#[test]
fn pixels_after_the_image_are_not_read() {
    let exact = encode_ppm(&[1, 2, 3, 4], 2, 2);
    let longer = encode_ppm(&[1, 2, 3, 4, 0xFFFFFF, 0x777777], 2, 2);
    assert_eq!(exact, longer);
}

#[test]
fn encoding_twice_gives_the_same_bytes() {
    let pixels: Vec<u32> = (0..48u32).map(|i| i.wrapping_mul(0x9E3779B1)).collect();
    let first = encode_ppm(&pixels, 6, 8);
    let second = encode_ppm(&pixels, 6, 8);
    assert_eq!(first, second);
    let copy = pixels.clone();
    assert_eq!(encode_ppm(&copy, 6, 8), first);
}

#[test]
fn reading_the_stream_gives_the_picture_back() {
    let sizes =
        [(0usize, 0usize), (0, 3), (3, 0), (1, 1), (2, 2), (7, 3), (3, 7), (10, 10), (16, 1)];
    for (width, height) in sizes {
        let pixels: Vec<u32> =
            (0..(width * height) as u32).map(|i| i.wrapping_mul(0x01000193) ^ 0xDEADBEEF).collect();
        let out = encode_ppm(&pixels, height, width);
        let (read_width, read_height, colors) = read_ppm(&out).expect("a well-formed stream");
        assert_eq!(read_width, width);
        assert_eq!(read_height, height);
        assert_eq!(colors.len(), width * height);
        for (color, pixel) in colors.iter().zip(pixels.iter()) {
            assert_eq!(*color, Rgb::from_packed(*pixel));
            assert_eq!(u32::from(color.red), (pixel >> 16) & 0xFF);
            assert_eq!(u32::from(color.green), (pixel >> 8) & 0xFF);
            assert_eq!(u32::from(color.blue), pixel & 0xFF);
        }
    }
}

#[test]
fn buffer_of_the_exact_size_holds_the_image() {
    assert!(holds_image(&[0; 6], 2, 3));
    assert!(holds_image(&[0; 6], 3, 2));
    assert!(holds_image(&[0; 6], 1, 6));
    assert!(holds_image(&[], 0, 0));
}

#[test]
fn longer_buffer_holds_the_image() {
    assert!(holds_image(&[0; 7], 2, 3));
    assert!(holds_image(&[0; 7], 0, 100));
    assert!(holds_image(&[0; 7], 100, 0));
    assert!(holds_image(&[], usize::MAX, 0));
}

#[test]
fn shorter_buffer_does_not_hold_the_image() {
    assert!(!holds_image(&[0; 5], 2, 3));
    assert!(!holds_image(&[], 1, 1));
    assert!(!holds_image(&[0; 4095], 64, 64));
}

#[test]
fn image_too_large_to_count_is_not_held() {
    assert!(!holds_image(&[0; 8], usize::MAX, 2));
    assert!(!holds_image(&[0; 8], usize::MAX, usize::MAX));
    assert!(!holds_image(&[0; 8], 1 << (usize::BITS / 2), 1 << (usize::BITS / 2)));
}

#[test]
fn same_pixels_in_another_shape_give_another_stream() {
    let pixels = [0x010203u32, 0x040506, 0x070809, 0x0A0B0C];
    let square = encode_ppm(&pixels, 2, 2);
    let row = encode_ppm(&pixels, 1, 4);
    let column = encode_ppm(&pixels, 4, 1);
    assert_ne!(square, row);
    assert_ne!(square, column);
    assert_ne!(row, column);
    assert_eq!(&square[b"P6\n2 2 255\n".len()..], &row[b"P6\n4 1 255\n".len()..]);
    assert_eq!(&row[b"P6\n4 1 255\n".len()..], &column[b"P6\n1 4 255\n".len()..]);
    assert!(row.starts_with(b"P6\n4 1 255\n"));
    assert!(column.starts_with(b"P6\n1 4 255\n"));
}
