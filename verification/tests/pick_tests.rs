use icosphere::cache::Size;
use icosphere::pick::decode_u32_le;
use icosphere::pick::padded_width;
use icosphere::pick::read_face_index;

#[test]
fn rows_pad_to_copy_alignment() {
    assert_eq!(padded_width(0), 0);
    assert_eq!(padded_width(1), 64);
    assert_eq!(padded_width(63), 64);
    assert_eq!(padded_width(64), 64);
    assert_eq!(padded_width(65), 128);
    assert_eq!(padded_width(800), 832);
    assert_eq!(padded_width(1280), 1280);
    assert_eq!(padded_width(1920), 1920);
}

#[test]
fn decode_is_little_endian() {
    let bytes = [0x78u8, 0x56, 0x34, 0x12, 0xff, 0x00, 0x00, 0x00];
    assert_eq!(decode_u32_le(&bytes, 0), 0x1234_5678);
    assert_eq!(decode_u32_le(&bytes, 4), 0xff);
    let max = [0xffu8, 0xff, 0xff, 0xff];
    assert_eq!(decode_u32_le(&max, 0), u32::MAX);
}

fn buffer_with(size: Size, x: u32, y: u32, value: u32) -> Vec<u8> {
    let stride = padded_width(size.width) as usize;
    let mut data = vec![0u8; 4 * stride * size.height as usize];
    let offset = 4 * (stride * y as usize + x as usize);
    data[offset..offset + 4].copy_from_slice(&value.to_le_bytes());
    data
}

#[test]
fn cursor_texel_is_decoded_from_padded_rows() {
    let size = Size::new(3, 2);
    let data = buffer_with(size, 2, 1, 42);
    assert_eq!(read_face_index(&data, 2, 1, size), Some(42));
    assert_eq!(read_face_index(&data, 0, 0, size), Some(0));
    // the padding bytes after column 2 must not shift later rows
    let size = Size::new(100, 4);
    let data = buffer_with(size, 99, 3, 7);
    assert_eq!(read_face_index(&data, 99, 3, size), Some(7));
    assert_eq!(read_face_index(&data, 98, 3, size), Some(0));
}

#[test]
fn cursor_outside_target_skips_the_pick() {
    let size = Size::new(3, 2);
    let data = buffer_with(size, 0, 0, 9);
    assert_eq!(read_face_index(&data, 3, 0, size), None);
    assert_eq!(read_face_index(&data, 0, 2, size), None);
    assert_eq!(read_face_index(&data, 700, 700, size), None);
}
