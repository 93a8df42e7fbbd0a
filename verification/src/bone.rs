//! Bone: immobile. It occupies its cell, blocks neighbours, and each step
//! only observes whether a blood grain sits directly above — an extension
//! hook with no resolved effect on the grid.

use vstd::prelude::*;

use crate::boundaries::{interior_active, is_within_boundaries};
use crate::constants::{GAME_RESOLUTION_X, GAME_RESOLUTION_Y};
use crate::grain::GrainType;
use crate::grid::{grid_at, Grid, GridPosition};

verus! {

/// What the bone hook sees: an interior-active bone with a blood grain in
/// the cell directly above it.
pub open spec fn bone_observes_blood(p: GridPosition, g: Seq<Option<GrainType>>) -> bool {
    let x = p.current_x as int;
    let y = p.current_y as int;
    &&& interior_active(x, y)
    &&& grid_at(g, x, y - 1) is Some
    &&& grid_at(g, x, y - 1)->0 is Blood
}

/// The bone observation hook: reports whether blood sits directly above.
/// It never moves the grain and never writes to the grid.
pub fn handle_bone_grain(grid_position: &GridPosition, grid_data: &Grid) -> (r: bool)
    requires
        grid_data.wf(),
    ensures
        r == bone_observes_blood(*grid_position, grid_data@),
{
    if is_within_boundaries(grid_position, GAME_RESOLUTION_X as i32, GAME_RESOLUTION_Y as i32) {
        let maybe_grain_above = grid_data.get(grid_position.current_x, grid_position.current_y - 1);
        match maybe_grain_above {
            Some(grain_above) => {
                match grain_above {
                    GrainType::Blood => true,
                    _ => false,
                }
            },
            None => false,
        }
    } else {
        false
    }
}

} // verus!
