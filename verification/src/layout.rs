//! Row pitch and size of the buffers that receive a rendered RGBA8 frame.
use vstd::prelude::*;

verus! {

/// Bytes per pixel of an RGBA8 (or ARGB8888) image.
pub const BYTES_PER_PIXEL: u32 = 4;

/// Number of bytes that a row of `width` pixels occupies, without padding.
pub open spec fn unpadded_row(width: int) -> int {
    4 * width
}

/// Row pitch of a GPU read-back buffer: the row rounded up to the next
/// multiple of 256 bytes.
pub open spec fn padded_row(width: int) -> int {
    (unpadded_row(width) + 255) / 256 * 256
}

/// Whether `row` is the smallest multiple of 256 that is at least the
/// unpadded row of `width` pixels.
pub open spec fn is_smallest_aligned_row(width: int, row: int) -> bool {
    &&& row % 256 == 0
    &&& unpadded_row(width) <= row
    &&& row < unpadded_row(width) + 256
}

/// The padded row is the smallest multiple of 256 that holds the row.
pub proof fn lemma_padded_row_is_smallest_aligned(width: int)
    requires
        0 <= width,
    ensures
        is_smallest_aligned_row(width, padded_row(width)),
        forall|row: int| #[trigger] is_smallest_aligned_row(width, row) ==> row == padded_row(width),
{
    let x = unpadded_row(width);
    let q = (x + 255) / 256;
    assert(0 <= (x + 255) - q * 256 < 256) by (nonlinear_arith)
        requires
            q == (x + 255) / 256,
            x >= 0,
    ;
    assert((q * 256) % 256 == 0) by (nonlinear_arith);
    assert forall|row: int| #[trigger] is_smallest_aligned_row(width, row) implies row == padded_row(width) by {
        let k = row / 256;
        assert(row == k * 256) by (nonlinear_arith)
            requires
                row % 256 == 0,
                k == row / 256,
        ;
        assert(k == q) by (nonlinear_arith)
            requires
                row == k * 256,
                x <= row < x + 256,
                0 <= (x + 255) - q * 256 < 256,
        ;
    }
}

/// The alignment that wgpu demands of `bytes_per_row` in texture-to-buffer copies.
///
/// Reads `wgpu::COPY_BYTES_PER_ROW_ALIGNMENT`, which wgpu-types defines as 256.
#[verifier::external_body]
fn copy_bytes_per_row_alignment() -> (align: u32)
    ensures
        align == 256,
{
    wgpu::COPY_BYTES_PER_ROW_ALIGNMENT
}

/// Row pitch, in bytes, of the buffer that a frame of `width` pixels is read
/// back into, and of the shared-memory buffers that show it.
pub fn padded_bytes_per_row(width: u32) -> (row: u32)
    requires
        unpadded_row(width as int) + 255 <= u32::MAX,
    ensures
        row == padded_row(width as int),
{
    let align = copy_bytes_per_row_alignment();
    let unpadded = width * BYTES_PER_PIXEL;
    let bumped = unpadded + (align - 1);
    let mask: u32 = !(align - 1);
    let row = bumped & mask;
    assert(row % 256 == 0 && unpadded <= row && row < unpadded + 256) by (bit_vector)
        requires
            unpadded <= 0xffff_ff00u32,
            bumped == unpadded + 255,
            mask == !255u32,
            row == bumped & mask,
    ;
    proof {
        lemma_padded_row_is_smallest_aligned(width as int);
        assert(is_smallest_aligned_row(width as int, row as int));
    }
    row
}

/// Size, in bytes, of the read-back buffer that holds a whole frame of
/// `width` by `height` pixels.
pub fn readback_buffer_size(width: u32, height: u32) -> (size: u64)
    requires
        unpadded_row(width as int) + 255 <= u32::MAX,
    ensures
        size == padded_row(width as int) * height,
{
    let row = padded_bytes_per_row(width);
    assert(row as u64 * height as u64 <= u64::MAX) by (nonlinear_arith)
        requires
            row <= u32::MAX,
            height <= u32::MAX,
    ;
    row as u64 * height as u64
}

/// Bytes per row of the crosshair image as it is uploaded into the texture.
pub fn texture_bytes_per_row(width: u32) -> (row: u32)
    requires
        unpadded_row(width as int) <= u32::MAX,
    ensures
        row == unpadded_row(width as int),
{
    BYTES_PER_PIXEL * width
}

} // verus!
