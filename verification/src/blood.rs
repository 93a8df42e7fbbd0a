//! Blood: water's sliding rule plus two guards. A fresh grain shows no
//! behaviour for a short grace period, and a grain boxed against its
//! preferred side may reverse its direction — once, while young enough.

use vstd::prelude::*;

use crate::boundaries::{interior_active, is_within_boundaries};
use crate::constants::{BLOOD_SAFE_TIME, BLOOD_SPAWN_GRACE, GAME_RESOLUTION_X, GAME_RESOLUTION_Y};
use crate::grain::{Direction, GrainType};
use crate::grid::{grid_at, moved_position, move_grain, Grid, GridPosition};

verus! {

/// The blood rule, as a function of the pre-step snapshot: the new
/// position, direction and flip commitment. The commitment flag guards the
/// direction flip so a grain reverses at most once; it is never cleared.
pub open spec fn blood_resolve(
    p: GridPosition,
    direction: Direction,
    commitment: bool,
    lifetime: u32,
    g: Seq<Option<GrainType>>,
) -> (GridPosition, Direction, bool) {
    let x = p.current_x as int;
    let y = p.current_y as int;
    if !interior_active(x, y) {
        (p, direction, commitment)
    } else if lifetime < BLOOD_SPAWN_GRACE {
        (p, direction, commitment)
    } else if grid_at(g, x, y + 1) is None {
        (moved_position(p, 0, 1), direction, commitment)
    } else {
        let left = grid_at(g, x - 1, y);
        let right = grid_at(g, x + 1, y);
        if left is Some && right is None {
            if direction is Right {
                (moved_position(p, 1, 0), direction, commitment)
            } else if lifetime < BLOOD_SAFE_TIME && !commitment {
                (p, Direction::Right, true)
            } else {
                (p, direction, commitment)
            }
        } else if left is None && right is Some {
            if direction is Left {
                (moved_position(p, -1, 0), direction, commitment)
            } else if lifetime < BLOOD_SAFE_TIME && !commitment {
                (p, Direction::Left, true)
            } else {
                (p, direction, commitment)
            }
        } else if left is None && right is None {
            if direction is Right {
                (moved_position(p, 1, 0), direction, commitment)
            } else {
                (moved_position(p, -1, 0), direction, commitment)
            }
        } else {
            (p, direction, commitment)
        }
    }
}

/// Applies the blood rule for one step, reading only the pre-step snapshot
/// in `grid_data`.
pub fn handle_blood_grain(
    grid_position: &mut GridPosition,
    grid_data: &Grid,
    direction: &mut Direction,
    commitment: &mut bool,
    lifetime: u32,
)
    requires
        grid_data.wf(),
    ensures
        (*final(grid_position), *final(direction), *final(commitment)) == blood_resolve(
            *old(grid_position),
            *old(direction),
            *old(commitment),
            lifetime,
            grid_data@,
        ),
{
    if is_within_boundaries(grid_position, GAME_RESOLUTION_X as i32, GAME_RESOLUTION_Y as i32) {
        // Skip all movement evaluation just after spawning.
        if lifetime < BLOOD_SPAWN_GRACE {
            return ;
        }
        let maybe_grain_below = grid_data.get(grid_position.current_x, grid_position.current_y + 1);
        let maybe_grain_right = grid_data.get(grid_position.current_x + 1, grid_position.current_y);
        let maybe_grain_left = grid_data.get(grid_position.current_x - 1, grid_position.current_y);

        match maybe_grain_below {
            None => {
                // No grain below, just fall.
                move_grain(grid_position, 0, 1);
            },
            Some(_) => {
                match (maybe_grain_left, maybe_grain_right) {
                    (Some(_), None) => {
                        match direction {
                            Direction::Right => move_grain(grid_position, 1, 0),
                            Direction::Left => {
                                if lifetime < BLOOD_SAFE_TIME && !*commitment {
                                    *direction = Direction::Right;
                                    *commitment = true;
                                }
                            },
                        }
                    },
                    (None, Some(_)) => {
                        match direction {
                            Direction::Left => move_grain(grid_position, -1, 0),
                            Direction::Right => {
                                if lifetime < BLOOD_SAFE_TIME && !*commitment {
                                    *direction = Direction::Left;
                                    *commitment = true;
                                }
                            },
                        }
                    },
                    (None, None) => {
                        match direction {
                            Direction::Right => move_grain(grid_position, 1, 0),
                            Direction::Left => move_grain(grid_position, -1, 0),
                        }
                    },
                    (Some(_), Some(_)) => {
                        // Boxed in on both diagonals: stay in place.
                    },
                }
            },
        }
    }
}

/// Which visual a blood grain shows: `Some(true)` for a blood grain with an
/// empty cell above (an exposed surface), `Some(false)` for a covered blood
/// grain, `None` for every other kind (no visual change).
pub fn shade_blood(
    grain_type: &GrainType,
    grid_position: &GridPosition,
    grid_data: &Grid,
) -> (r: Option<bool>)
    requires
        grid_data.wf(),
        grid_position.current_y > i32::MIN,
    ensures
        r == if *grain_type is Blood {
            Some(
                grid_at(
                    grid_data@,
                    grid_position.current_x as int,
                    grid_position.current_y - 1,
                ) is None,
            )
        } else {
            None::<bool>
        },
{
    let maybe_grain_above = grid_data.get(grid_position.current_x, grid_position.current_y - 1);
    match grain_type {
        GrainType::Blood => {
            match maybe_grain_above {
                None => Some(true),
                _ => Some(false),
            }
        },
        _ => None,
    }
}

} // verus!
