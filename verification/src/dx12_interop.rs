//! Layout of the shared plane buffers used by the zero-copy GPU decode path:
//! row pitches aligned for buffer-to-texture copies, and buffer sizes.
use vstd::prelude::*;

verus! {

/// Number of double-buffer sets.
pub const NUM_BUFFER_SETS: usize = 2;

/// Required alignment of `bytes_per_row` in buffer-to-texture copies
/// (wgpu's `COPY_BYTES_PER_ROW_ALIGNMENT`).
pub const COPY_BYTES_PER_ROW_ALIGNMENT: u32 = 256;

/// Row pitches and sizes of the shared plane buffers.
#[derive(Debug, Clone, Copy, PartialEq, Eq)]
pub struct SharedBufferLayout {
    /// Row pitch for the Y plane (aligned).
    pub y_pitch: u32,
    /// Row pitch for the U/V planes (aligned).
    pub uv_pitch: u32,
    /// Total Y plane buffer size in bytes.
    pub y_size: u64,
    /// Total U (or V) plane buffer size in bytes.
    pub uv_size: u64,
}

/// `n` rounded up to a multiple of `a`.
pub open spec fn align_up(n: nat, a: nat) -> nat
    recommends
        a > 0,
{
    ((n + a - 1) / a as int) as nat * a
}

proof fn lemma_align_256(x: u32)
    requires
        x <= u32::MAX - 255,
    ensures
        ((x + 255) as u32 & !255u32) as nat == align_up(x as nat, 256),
        ((x + 255) as u32 & !255u32) >= x,
        ((x + 255) as u32 & !255u32) < x + 256,
        ((x + 255) as u32 & !255u32) % 256 == 0,
{
    let y: u32 = (x + 255) as u32;
    assert(y & !255u32 == y - y % 256) by (bit_vector);
    assert((y - y % 256) == (y / 256) * 256);
}

/// Buffer sizes for YUV 4:2:2 planes at the given frame size, each row
/// padded to [`COPY_BYTES_PER_ROW_ALIGNMENT`] bytes.
pub fn plane_sizes(width: u32, height: u32) -> (layout: SharedBufferLayout)
    requires
        width <= u32::MAX - 256,
    ensures
        layout.y_pitch == align_up(width as nat, 256),
        layout.uv_pitch == align_up((width / 2) as nat, 256),
        layout.y_size == layout.y_pitch * height,
        layout.uv_size == layout.uv_pitch * height,
{
    let align = COPY_BYTES_PER_ROW_ALIGNMENT;
    assert(align == 256);
    let y_pitch = (width + align - 1) & !(align - 1);
    let uv_pitch = ((width / 2) + align - 1) & !(align - 1);
    proof {
        lemma_align_256(width);
        lemma_align_256(width / 2);
    }
    assert((y_pitch as u64) * (height as u64) <= u64::MAX) by (nonlinear_arith)
        requires
            y_pitch <= u32::MAX,
            height <= u32::MAX,
    ;
    assert((uv_pitch as u64) * (height as u64) <= u64::MAX) by (nonlinear_arith)
        requires
            uv_pitch <= u32::MAX,
            height <= u32::MAX,
    ;
    let y_size = (y_pitch as u64) * (height as u64);
    let uv_size = (uv_pitch as u64) * (height as u64);
    SharedBufferLayout { y_pitch, uv_pitch, y_size, uv_size }
}

/// Law: an aligned pitch is a multiple of the alignment, holds the row, and
/// wastes less than one alignment unit.
pub proof fn lemma_pitch_bounds(width: u32)
    requires
        width <= u32::MAX - 255,
    ensures
        align_up(width as nat, 256) % 256 == 0,
        width <= align_up(width as nat, 256) < width + 256,
{
    lemma_align_256(width);
}

} // verus!
