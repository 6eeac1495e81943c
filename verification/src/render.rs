//! Decisions of the backend's renderer that do not touch the GPU: where
//! each shape's uniforms live in the shared uniform buffer, which window
//! sizes the surface accepts, and how a failed frame is recovered from.

use vstd::prelude::*;

verus! {

/// How many shapes the uniform buffer has room for.
pub const MAX_INSTANCES: usize = 64;

/// Byte size of one shape's uniforms: two 4x4 matrices of `f32`
/// (view-projection and model).
pub const UNIFORM_SIZE: u32 = 128;

/// Dynamic uniform offsets must be multiples of this.
pub const UNIFORM_ALIGNMENT: u32 = 256;

/// `size` rounded up to the next multiple of 256.
pub open spec fn spec_align_up(size: int) -> int {
    ((size + 255) / 256) * 256
}

/// `size` rounded up to the next multiple of the dynamic-offset alignment
/// of 256 bytes: `(size + 255) & !255`.
pub fn aligned_uniform_size(size: u32) -> (r: u32)
    requires
        size <= u32::MAX - 255,
    ensures
        r == spec_align_up(size as int),
        r % 256 == 0,
        size <= r < size + 256,
{
    let alignment = UNIFORM_ALIGNMENT;
    let padded = size + (alignment - 1);
    let mask = !(alignment - 1);
    let r = padded & mask;
    assert(r == (padded / 256) * 256 && r % 256 == 0 && size <= r && r < size + 256) by (bit_vector)
        requires r == padded & mask, mask == !255u32, padded == size + 255, size <= 0xffff_ff00u32;
    r
}

/// Size in bytes of the uniform buffer: one aligned slot per possible
/// shape.
pub fn uniform_buffer_size(aligned_size: u32) -> (r: u64)
    requires
        aligned_size as int * MAX_INSTANCES as int <= usize::MAX,
    ensures
        r == aligned_size as int * MAX_INSTANCES as int,
{
    ((aligned_size as usize) * MAX_INSTANCES) as u64
}

/// Where the uniforms of the `index`-th shape are written.
pub fn instance_offset(index: usize, aligned_size: u32) -> (r: u64)
    requires
        index as int * aligned_size as int <= u64::MAX,
    ensures
        r == index as int * aligned_size as int,
{
    (index as u64) * (aligned_size as u64)
}

/// The dynamic offset the `index`-th shape is drawn with. The index is
/// narrowed to 32 bits as the renderer does.
pub fn dynamic_offset(index: usize, aligned_size: u32) -> (r: u32)
    requires
        (index as u32) as int * aligned_size as int <= u32::MAX,
    ensures
        r == (index as u32) as int * aligned_size as int,
{
    (index as u32) * aligned_size
}

/// The uniforms of each of the first `MAX_INSTANCES` shapes lie in their
/// own slot inside the buffer, at an offset the GPU accepts as dynamic,
/// and the offset they are drawn with is the one they were written at.
pub proof fn lemma_instance_slots(index: int)
    requires
        0 <= index < MAX_INSTANCES,
    ensures
        ({
            let aligned = spec_align_up(UNIFORM_SIZE as int);
            let offset = index * aligned;
            &&& aligned == 256
            &&& offset % (UNIFORM_ALIGNMENT as int) == 0
            &&& offset + UNIFORM_SIZE <= aligned * MAX_INSTANCES
            &&& offset + aligned <= (index + 1) * aligned
            &&& offset <= u32::MAX
            &&& (index as u32) as int == index
        }),
{
    assert(spec_align_up(128) == 256);
    assert((index * 256) % 256 == 0) by (nonlinear_arith);
    assert(index * 256 + 128 <= 256 * 64) by (nonlinear_arith) requires 0 <= index < 64;
    assert(index * 256 + 256 <= (index + 1) * 256) by (nonlinear_arith);
}

/// A window size the surface is reconfigured for: both sides non-zero
/// (a minimised window reports zero).
pub fn accepts_surface_size(width: u32, height: u32) -> (r: bool)
    ensures
        r == (width > 0 && height > 0),
{
    width > 0 && height > 0
}

/// Why presenting a frame failed.
#[derive(Debug, Clone, Copy, PartialEq, Eq, Structural)]
pub enum SurfaceFailure {
    /// The surface is gone and has to be configured again.
    Lost,
    /// The GPU ran out of memory.
    OutOfMemory,
    /// The surface no longer matches the window.
    Outdated,
    /// No frame became available in time.
    Timeout,
}

/// What the renderer does after a failed frame.
#[derive(Debug, Clone, Copy, PartialEq, Eq, Structural)]
pub enum Recovery {
    /// Configure the surface again at the current size.
    Reconfigure,
    /// Leave the event loop.
    Exit,
    /// Report the error and go on with the next frame.
    Report,
}

/// A lost surface is configured again, running out of memory ends the
/// program, anything else is reported.
pub fn recovery_for(failure: SurfaceFailure) -> (r: Recovery)
    ensures
        r == (match failure {
            SurfaceFailure::Lost => Recovery::Reconfigure,
            SurfaceFailure::OutOfMemory => Recovery::Exit,
            _ => Recovery::Report,
        }),
{
    match failure {
        SurfaceFailure::Lost => Recovery::Reconfigure,
        SurfaceFailure::OutOfMemory => Recovery::Exit,
        _ => Recovery::Report,
    }
}

} // verus!
