//! Compile-time configuration of the automaton.

use vstd::prelude::*;

verus! {

/// Width of the occupancy grid, in cells.
pub const GAME_RESOLUTION_X: usize = 80;

/// Height of the occupancy grid, in cells.
pub const GAME_RESOLUTION_Y: usize = 60;

/// The automaton performs one simulation step every `TICK_RATE` polls.
pub const TICK_RATE: u32 = 1;

/// Once a blood grain has lived this many steps it keeps its committed
/// direction instead of flipping when boxed in, so it converges to rest.
pub const BLOOD_SAFE_TIME: u32 = 200;

/// A fresh blood grain skips movement evaluation while younger than this,
/// so it shows no behaviour in the air right after spawning.
pub const BLOOD_SPAWN_GRACE: u32 = 5;

/// A sand grain older than this is permanently inert: its rule returns
/// without evaluating movement, modelling irreversible settling.
pub const SAND_SETTLE_TIME: u32 = 500;

/// Every random draw the resolver consumes is uniform in `[0, ROLL_BOUND)`.
pub const ROLL_BOUND: u32 = 10000;

/// Sand boxed in with a single free diagonal slides there when its roll is
/// below this threshold (a rare slide, probability 1%).
pub const SAND_SLIDE_RARE: u32 = 100;

/// Sand with both diagonals free slides left when its roll is below this
/// threshold (probability 40%).
pub const SAND_SLIDE_LEFT: u32 = 4000;

/// Sand with both diagonals free slides right when its roll is at least
/// `SAND_SLIDE_LEFT` and below this threshold (probability 40%); at or above
/// it, the grain stays put.
pub const SAND_SLIDE_RIGHT: u32 = 8000;

} // verus!
