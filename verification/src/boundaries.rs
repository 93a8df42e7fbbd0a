//! The two notions of a valid cell: storage bounds and the interior band
//! inside which grains are actively resolved.

use vstd::prelude::*;

use crate::constants::{GAME_RESOLUTION_X, GAME_RESOLUTION_Y};
use crate::grid::GridPosition;

verus! {

/// Storage-valid: the cell lies inside the dense grid, so reads and writes
/// reach real storage.
pub open spec fn in_bounds(x: int, y: int) -> bool {
    &&& 0 <= x < GAME_RESOLUTION_X as int
    &&& 0 <= y < GAME_RESOLUTION_Y as int
}

/// Interior-active with respect to a `res_x` by `res_y` grid: one cell of
/// side margin and the bottom row are excluded, so every left, right and
/// below neighbour of an active cell is storage-valid.
pub open spec fn interior_active_in(x: int, y: int, res_x: int, res_y: int) -> bool {
    &&& 1 <= x < res_x - 1
    &&& 0 <= y < res_y - 1
}

/// Interior-active for the configured grid: only such grains are evaluated
/// by the movement resolver; the rest are inert for the step.
pub open spec fn interior_active(x: int, y: int) -> bool {
    interior_active_in(x, y, GAME_RESOLUTION_X as int, GAME_RESOLUTION_Y as int)
}

/// Shared interior-vs-storage bounds check used by every kind's rule.
pub fn is_within_boundaries(grid_position: &GridPosition, res_x: i32, res_y: i32) -> (r: bool)
    ensures
        r == interior_active_in(
            grid_position.current_x as int,
            grid_position.current_y as int,
            res_x as int,
            res_y as int,
        ),
{
    grid_position.current_x >= 1 && (grid_position.current_x as i64) < (res_x as i64) - 1
        && grid_position.current_y >= 0 && (grid_position.current_y as i64) < (res_y as i64) - 1
}

} // verus!
