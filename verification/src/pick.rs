//! Decoding of the face-picking readback. The selection pass renders each
//! face's index into a one-texel-per-pixel unsigned-integer target, which
//! is copied row by row into a host-visible buffer whose row stride is
//! padded to the platform's copy alignment. Given those bytes, the
//! functions here locate the texel under the cursor and decode it as a
//! little-endian 32-bit face index, skipping cursor positions outside the
//! target instead of reading out of bounds.

use vstd::prelude::*;

use crate::cache::Size;

verus! {

/// Texels per padded row: `width` rounded up to a multiple of 64, the
/// smallest item count whose 4-byte-texel row size is a multiple of the
/// required 256-byte copy alignment.
pub open spec fn padded_width_spec(width: int) -> int {
    if width % 64 == 0 {
        width
    } else {
        (width / 64) * 64 + 64
    }
}

/// Byte offset of texel `(x, y)` in the padded readback buffer.
pub open spec fn pick_byte_offset(width: int, x: int, y: int) -> int {
    4 * (padded_width_spec(width) * y + x)
}

/// The `u32` stored little-endian at byte offset `o` of `b`.
pub open spec fn le_u32_at(b: Seq<u8>, o: int) -> int {
    b[o] + 0x100 * b[o + 1] + 0x1_0000 * b[o + 2] + 0x100_0000 * b[o + 3]
}

/// Number of bytes the readback buffer holds for a `width` by `height`
/// target, rows padded.
pub open spec fn readback_len_spec(width: int, height: int) -> int {
    4 * padded_width_spec(width) * height
}

/// Texels per row of the readback buffer for a target `width` texels
/// wide.
pub fn padded_width(width: u32) -> (r: u32)
    requires
        width + 64 <= u32::MAX,
    ensures
        r == padded_width_spec(width as int),
        r % 64 == 0,
        width <= r < width + 64,
{
    if width % 64 == 0 {
        width
    } else {
        (width / 64) * 64 + 64
    }
}

/// Decode the `u32` stored little-endian at `offset`. This is the
/// explicit replacement for reinterpreting mapped GPU memory in place.
pub fn decode_u32_le(data: &[u8], offset: usize) -> (r: u32)
    requires
        offset + 4 <= data@.len(),
    ensures
        r == le_u32_at(data@, offset as int),
{
    let b0 = data[offset] as u32;
    let b1 = data[offset + 1] as u32;
    let b2 = data[offset + 2] as u32;
    let b3 = data[offset + 3] as u32;
    b0 + 0x100 * b1 + 0x1_0000 * b2 + 0x100_0000 * b3
}

/// Read the face index under the cursor from the copied selection bytes,
/// or `None` when the cursor lies outside the target, in which case that
/// frame's pick is skipped. `data` must be exactly the padded readback
/// buffer of the `size` target.
pub fn read_face_index(data: &[u8], x: u32, y: u32, size: Size) -> (r: Option<u32>)
    requires
        size.width + 64 <= u32::MAX,
        data@.len() == readback_len_spec(size.width as int, size.height as int),
    ensures
        match r {
            Some(v) => x < size.width && y < size.height && v == le_u32_at(
                data@,
                pick_byte_offset(size.width as int, x as int, y as int),
            ),
            None => x >= size.width || y >= size.height,
        },
{
    if x >= size.width || y >= size.height {
        return None;
    }
    let len = data.len();
    let stride = padded_width(size.width);
    proof {
        assert(4 * ((stride as int) * (y as int) + (x as int)) + 4 <= data@.len())
            by (nonlinear_arith)
            requires
                data@.len() == 4 * (stride as int) * (size.height as int),
                x < size.width <= stride,
                y < size.height,
        ;
    }
    let offset64: u64 = 4 * ((stride as u64) * (y as u64) + (x as u64));
    let offset = offset64 as usize;
    Some(decode_u32_le(data, offset))
}

} // verus!
