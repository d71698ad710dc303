//! Axis-aligned bounding-box overlap test.

use vstd::prelude::*;

verus! {

/// Two axis-aligned rectangles, given by top-left corner and extent,
/// intersect with strict inequality on all four half-plane tests. Touching
/// edges count as non-overlapping.
pub open spec fn overlaps(
    ax: int,
    ay: int,
    aw: int,
    ah: int,
    bx: int,
    by: int,
    bw: int,
    bh: int,
) -> bool {
    ax < bx + bw && ax + aw > bx && ay < by + bh && ay + ah > by
}

/// Executable overlap test. The bounds keep every sum inside `i64`.
pub fn rects_overlap(ax: i64, ay: i64, aw: i64, ah: i64, bx: i64, by: i64, bw: i64, bh: i64) -> (r:
    bool)
    requires
        -0x4000_0000_0000_0000 < ax + aw < 0x4000_0000_0000_0000,
        -0x4000_0000_0000_0000 < ay + ah < 0x4000_0000_0000_0000,
        -0x4000_0000_0000_0000 < bx + bw < 0x4000_0000_0000_0000,
        -0x4000_0000_0000_0000 < by + bh < 0x4000_0000_0000_0000,
    ensures
        r == overlaps(ax as int, ay as int, aw as int, ah as int, bx as int, by as int, bw as int,
            bh as int),
{
    ax < bx + bw && ax + aw > bx && ay < by + bh && ay + ah > by
}

} // verus!
