//! Sand: probabilistic settling. Falls when it can, rarely slips past a
//! single diagonal neighbour, usually slides off a peak, and becomes
//! permanently inert once old enough.

use vstd::prelude::*;

use crate::boundaries::{interior_active, is_within_boundaries};
use crate::constants::{
    GAME_RESOLUTION_X, GAME_RESOLUTION_Y, SAND_SETTLE_TIME, SAND_SLIDE_LEFT, SAND_SLIDE_RARE,
    SAND_SLIDE_RIGHT,
};
use crate::grain::GrainType;
use crate::grid::{grid_at, moved_position, move_grain, Grid, GridPosition};

verus! {

/// The sand rule, as a function of the pre-step snapshot and the uniform
/// roll consumed this step. Grains outside the interior band, and grains
/// past the settle cutoff, are inert.
pub open spec fn sand_resolve(
    p: GridPosition,
    lifetime: u32,
    g: Seq<Option<GrainType>>,
    roll: u32,
) -> GridPosition {
    let x = p.current_x as int;
    let y = p.current_y as int;
    if !interior_active(x, y) {
        p
    } else if lifetime > SAND_SETTLE_TIME {
        p
    } else if grid_at(g, x, y + 1) is None {
        moved_position(p, 0, 1)
    } else {
        let left = grid_at(g, x - 1, y);
        let right = grid_at(g, x + 1, y);
        if left is Some && right is None {
            if roll < SAND_SLIDE_RARE {
                moved_position(p, 1, 0)
            } else {
                p
            }
        } else if left is None && right is Some {
            if roll < SAND_SLIDE_RARE {
                moved_position(p, -1, 0)
            } else {
                p
            }
        } else if left is None && right is None {
            if roll < SAND_SLIDE_LEFT {
                moved_position(p, -1, 0)
            } else if roll < SAND_SLIDE_RIGHT {
                moved_position(p, 1, 0)
            } else {
                p
            }
        } else {
            p
        }
    }
}

/// Applies the sand rule for one step, reading only the pre-step snapshot
/// in `grid_data`.
pub fn handle_sand_grain(
    grid_position: &mut GridPosition,
    grid_data: &Grid,
    lifetime: u32,
    roll: u32,
)
    requires
        grid_data.wf(),
    ensures
        *final(grid_position) == sand_resolve(*old(grid_position), lifetime, grid_data@, roll),
{
    if is_within_boundaries(grid_position, GAME_RESOLUTION_X as i32, GAME_RESOLUTION_Y as i32) {
        if lifetime > SAND_SETTLE_TIME {
            return ;
        }
        let maybe_grain_below = grid_data.get(grid_position.current_x, grid_position.current_y + 1);
        let maybe_grain_right = grid_data.get(grid_position.current_x + 1, grid_position.current_y);
        let maybe_grain_left = grid_data.get(grid_position.current_x - 1, grid_position.current_y);

        match maybe_grain_below {
            None => {
                // No grain below, just fall.
                move_grain(grid_position, 0, 1);
            },
            Some(_) => {
                match (maybe_grain_left, maybe_grain_right) {
                    (Some(_), None) => {
                        if roll < SAND_SLIDE_RARE {
                            move_grain(grid_position, 1, 0);
                        }
                    },
                    (None, Some(_)) => {
                        if roll < SAND_SLIDE_RARE {
                            move_grain(grid_position, -1, 0);
                        }
                    },
                    (None, None) => {
                        if roll < SAND_SLIDE_LEFT {
                            move_grain(grid_position, -1, 0);
                        } else if roll < SAND_SLIDE_RIGHT {
                            move_grain(grid_position, 1, 0);
                        }
                    },
                    (Some(_), Some(_)) => {
                        // Boxed in on both diagonals: rest.
                    },
                }
            },
        }
    }
}

} // verus!
