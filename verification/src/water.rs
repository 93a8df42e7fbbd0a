//! Water: deterministic sliding. Falls when it can, slides in its stored
//! direction whenever the diagonal on that side is free, and otherwise
//! rests for this tick only — rest is re-evaluated every step, never sticky.

use vstd::prelude::*;

use crate::boundaries::{interior_active, is_within_boundaries};
use crate::constants::{GAME_RESOLUTION_X, GAME_RESOLUTION_Y};
use crate::grain::{Direction, GrainType};
use crate::grid::{grid_at, moved_position, move_grain, Grid, GridPosition};

verus! {

/// The water rule, as a function of the pre-step snapshot. The stored
/// direction never changes: a grain blocked on its preferred side simply
/// does nothing this tick.
pub open spec fn water_resolve(
    p: GridPosition,
    direction: Direction,
    g: Seq<Option<GrainType>>,
) -> GridPosition {
    let x = p.current_x as int;
    let y = p.current_y as int;
    if !interior_active(x, y) {
        p
    } else if grid_at(g, x, y + 1) is None {
        moved_position(p, 0, 1)
    } else {
        let left = grid_at(g, x - 1, y);
        let right = grid_at(g, x + 1, y);
        if left is Some && right is None {
            if direction is Right {
                moved_position(p, 1, 0)
            } else {
                p
            }
        } else if left is None && right is Some {
            if direction is Left {
                moved_position(p, -1, 0)
            } else {
                p
            }
        } else if left is None && right is None {
            if direction is Right {
                moved_position(p, 1, 0)
            } else {
                moved_position(p, -1, 0)
            }
        } else {
            p
        }
    }
}

/// Applies the water rule for one step, reading only the pre-step snapshot
/// in `grid_data`.
pub fn handle_water_grain(grid_position: &mut GridPosition, grid_data: &Grid, direction: &Direction)
    requires
        grid_data.wf(),
    ensures
        *final(grid_position) == water_resolve(*old(grid_position), *direction, grid_data@),
{
    if is_within_boundaries(grid_position, GAME_RESOLUTION_X as i32, GAME_RESOLUTION_Y as i32) {
        let maybe_grain_below = grid_data.get(grid_position.current_x, grid_position.current_y + 1);
        let maybe_grain_right = grid_data.get(grid_position.current_x + 1, grid_position.current_y);
        let maybe_grain_left = grid_data.get(grid_position.current_x - 1, grid_position.current_y);

        match maybe_grain_below {
            None => {
                // No grain below, just fall.
                move_grain(grid_position, 0, 1);
            },
            Some(_) => {
                match (maybe_grain_left, maybe_grain_right) {
                    (Some(_), None) => {
                        match direction {
                            Direction::Right => move_grain(grid_position, 1, 0),
                            Direction::Left => {
                                // Blocked on the preferred side: stay.
                            },
                        }
                    },
                    (None, Some(_)) => {
                        match direction {
                            Direction::Left => move_grain(grid_position, -1, 0),
                            Direction::Right => {
                                // Blocked on the preferred side: stay.
                            },
                        }
                    },
                    (None, None) => {
                        match direction {
                            Direction::Right => move_grain(grid_position, 1, 0),
                            Direction::Left => move_grain(grid_position, -1, 0),
                        }
                    },
                    (Some(_), Some(_)) => {
                        // Boxed in on both diagonals: rest this tick only.
                    },
                }
            },
        }
    }
}

} // verus!
