//! The simulation clock: a coarse tick-counter gate, not wall-clock based.

use vstd::prelude::*;

verus! {

/// Every external poll increments `count`; when `count` reaches
/// `tick_rate` the automaton performs exactly one step and `count` resets
/// to zero. A `tick_rate` of 1 means one step per poll.
pub struct TickCounter {
    /// Polls seen since the last simulation step.
    pub count: u32,
    /// Polls per simulation step.
    pub tick_rate: u32,
}

} // verus!
