use vstd::prelude::*;

use crate::brush::clamp;

verus! {

/// The cell index on one axis under a pointer, given `floored`, the pointer
/// coordinate divided by the cell edge length and rounded down. The grid is
/// centered on the origin, so the index is shifted by half the grid size.
pub open spec fn pointer_cell(floored: int, grid_size: int) -> int {
    floored + grid_size / 2
}

/// `pointer_cell`, saturated to the range of `i32`. No clamping to the grid:
/// painting and preview decide what to do with indices outside it.
pub fn cell_of(floored: i32, grid_size: usize) -> (r: i32)
    requires
        grid_size <= crate::MAX_GRID_SIZE,
    ensures
        r == clamp(pointer_cell(floored as int, grid_size as int), i32::MIN as int, i32::MAX as int),
{
    let v: i64 = floored as i64 + (grid_size / 2) as i64;
    if v > i32::MAX as i64 {
        i32::MAX
    } else {
        v as i32
    }
}

/// The center of `span` cells starting at index `first`, measured from the
/// grid's center in half cell edges: cell `i` alone is centered at
/// `(i - (grid_size / 2 - 0.5))` edges, which is `2 * i + 1 - 2 * (grid_size / 2)`
/// half edges.
pub open spec fn center_in_half_edges(first: int, span: int, grid_size: int) -> int {
    2 * first + span - 2 * (grid_size / 2)
}

/// `center_in_half_edges`; multiplied by half the edge length it gives world
/// coordinates.
pub fn center_of_span(first: i64, span: usize, grid_size: usize) -> (r: i64)
    requires
        grid_size <= crate::MAX_GRID_SIZE,
        span <= crate::MAX_GRID_SIZE,
        i64::MIN + crate::MAX_GRID_SIZE <= 2 * first <= i64::MAX - crate::MAX_GRID_SIZE,
    ensures
        r == center_in_half_edges(first as int, span as int, grid_size as int),
{
    2 * first + span as i64 - 2 * (grid_size / 2) as i64
}

} // verus!
