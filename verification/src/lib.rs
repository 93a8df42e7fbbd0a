//! A falling-grain cellular automaton on a fixed occupancy grid.
//!
//! Grains of four kinds (sand, water, blood, bone) fall, slide and settle on
//! a dense two-dimensional grid. Each simulation step reads only the grid
//! snapshot committed at the end of the previous step, resolves every grain's
//! movement against that snapshot, and then commits the new positions —
//! clearing every vacated cell before writing any new one.

pub mod blood;
pub mod bone;
pub mod boundaries;
pub mod constants;
pub mod frame;
pub mod grain;
pub mod grid;
pub mod laws;
pub mod rng;
pub mod sand;
pub mod tick;
pub mod water;
