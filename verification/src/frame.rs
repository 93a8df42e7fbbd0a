//! One external poll of the automaton: spawn intake happens before this,
//! then the clock gate, movement resolution against the previous snapshot,
//! and the grid commit, in that order and never overlapping.

use vstd::prelude::*;

use crate::grain::{lemma_step_store_len, rolls_wf, step_store, store_wf, update_grain, Grain};
use crate::grid::{sync_mark, sync_store, update_grid_data, Grid};
use crate::laws::{
    distinct_positions, lemma_frame_single_occupancy, lemma_nonstep_frame_single_occupancy,
    single_occupancy, store_invariant,
};
use crate::tick::TickCounter;

verus! {

/// A store as the sync pass leaves it: every grain marked in place.
pub open spec fn synced_store(store: Seq<Grain>) -> Seq<Grain> {
    Seq::new(store.len(), |i: int| sync_mark(store[i]))
}

/// Runs one poll: the clock gate, then — on a step — resolution of every
/// grain against the snapshot committed last time, then the commit of the
/// new positions. On a non-step poll the store is only re-committed
/// unchanged. Starting from any state the store invariant admits, the
/// grid afterwards shows each grain's kind at its cell and nothing else.
pub fn run_frame(grains: &mut Vec<Grain>, grid_data: &mut Grid, tick_counter: &mut TickCounter)
    requires
        old(grid_data).wf(),
        old(tick_counter).count < u32::MAX,
        store_wf(old(grains)@),
    ensures
        final(grid_data).wf(),
        final(tick_counter).tick_rate == old(tick_counter).tick_rate,
        store_invariant(old(grains)@, old(grid_data)@) ==> store_invariant(
            final(grains)@,
            final(grid_data)@,
        ) && single_occupancy(final(grains)@, final(grid_data)@) && distinct_positions(
            final(grains)@,
        ),
        old(tick_counter).count + 1 < old(tick_counter).tick_rate ==> final(tick_counter).count
            == old(tick_counter).count + 1 && final(grains)@ == synced_store(old(grains)@)
            && final(grid_data)@ == sync_store(old(grid_data)@, old(grains)@),
        old(tick_counter).count + 1 >= old(tick_counter).tick_rate ==> final(tick_counter).count
            == 0 && (exists|rolls: Seq<u32>|
            rolls_wf(rolls, old(grains)@.len()) && final(grains)@ == synced_store(
                #[trigger] step_store(old(grains)@, old(grid_data)@, rolls),
            ) && final(grid_data)@ == sync_store(
                old(grid_data)@,
                step_store(old(grains)@, old(grid_data)@, rolls),
            )),
{
    let ghost orig = grains@;
    let ghost grid0 = grid_data@;
    let ghost c0 = tick_counter.count;
    let ghost rate = tick_counter.tick_rate;
    update_grain(grains, grid_data, tick_counter);
    let ghost mid = grains@;
    update_grid_data(grains, grid_data);
    proof {
        assert(grains@ =~= synced_store(mid));
        if c0 + 1 >= rate {
            let rolls = choose|rolls: Seq<u32>|
                rolls_wf(rolls, orig.len()) && mid == #[trigger] step_store(orig, grid0, rolls);
            lemma_step_store_len(orig, grid0, rolls);
            assert(grid_data@ == sync_store(grid0, step_store(orig, grid0, rolls)));
            assert(rolls_wf(rolls, orig.len()) && grains@ == synced_store(
                step_store(orig, grid0, rolls),
            ) && grid_data@ == sync_store(grid0, step_store(orig, grid0, rolls)));
            if store_invariant(orig, grid0) {
                lemma_frame_single_occupancy(orig, grid0, rolls);
            }
        } else {
            if store_invariant(orig, grid0) {
                lemma_nonstep_frame_single_occupancy(orig, grid0);
            }
        }
    }
}

} // verus!
