//! Buffer layouts of the indirect-draw compute pass.

use vstd::prelude::*;

verus! {

/// Number of draw commands the indirect command buffer is allocated for.
pub const COMMAND_BUFFER_SIZE: usize = 1000;

/// Size in bytes of one [`DrawElementsIndirectCommand`]: five 32-bit words.
pub const COMMAND_BYTES: usize = 20;

/// One indirect indexed draw command, five 32-bit words in the order the
/// graphics API reads them.
#[derive(Clone, Copy, Debug, PartialEq, Eq)]
pub struct DrawElementsIndirectCommand {
    pub _count: u32,
    pub _instance_count: u32,
    pub _first_index: u32,
    pub _base_vertex: u32,
    pub _base_instance: u32,
}

/// Bytes of storage that a command buffer of `commands` entries occupies.
pub open spec fn command_buffer_bytes(commands: int) -> int {
    commands * 20
}

/// Byte size to allocate for the indirect command buffer.
pub fn command_buffer_size() -> (bytes: usize)
    ensures
        bytes == command_buffer_bytes(COMMAND_BUFFER_SIZE as int),
        bytes == 20000,
{
    COMMAND_BYTES * COMMAND_BUFFER_SIZE
}

/// Number of curve points that the curve storage block has room for.
pub const CURVE_BUFFER_POINTS: usize = 1000;

/// The point count as the curve storage block stores it: the low 32 bits
/// of the number of points.
pub fn points_count(points: usize) -> (count: u32)
    ensures
        count as int == points as int % 0x1_0000_0000,
{
    let wide: u64 = points as u64;
    let low: u64 = wide & 0xffff_ffff;
    assert(low == wide % 0x1_0000_0000 && low <= 0xffff_ffff) by (bit_vector)
        requires
            low == wide & 0xffff_ffff,
    ;
    low as u32
}

/// The contents of a storage block of `slots` entries that is filled from
/// `points`: slot `i` holds point `i`, slots past the last point hold
/// `fill`, and points past the last slot are left out.
pub open spec fn padded<T>(points: Seq<T>, fill: T, slots: int) -> Seq<T> {
    Seq::new(
        slots as nat,
        |i: int|
            if i < points.len() {
                points[i]
            } else {
                fill
            },
    )
}

/// Lays `points` out for the curve storage block: exactly
/// [`CURVE_BUFFER_POINTS`] entries, the points first and `fill` after them.
pub fn padded_points<T: Copy>(points: &Vec<T>, fill: T) -> (block: Vec<T>)
    ensures
        block@ == padded(points@, fill, CURVE_BUFFER_POINTS as int),
{
    let mut block: Vec<T> = Vec::new();
    let mut i: usize = 0;
    while i < CURVE_BUFFER_POINTS
        invariant
            i <= CURVE_BUFFER_POINTS,
            block@ == padded(points@, fill, i as int),
        decreases CURVE_BUFFER_POINTS - i,
    {
        let entry = if i < points.len() {
            points[i]
        } else {
            fill
        };
        block.push(entry);
        i += 1;
    }
    block
}

} // verus!
