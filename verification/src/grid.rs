//! The dense occupancy grid: which grain kind occupies each cell, with
//! bounds-safe reads and writes.

use vstd::prelude::*;

use crate::boundaries::in_bounds;
use crate::constants::{GAME_RESOLUTION_X, GAME_RESOLUTION_Y};
use crate::grain::{Grain, GrainType};

verus! {

/// A grain's current cell, and the cell it occupied when the grid was last
/// synced (`None` right after spawn: nothing to clear yet).
#[derive(Clone, Copy)]
pub struct GridPosition {
    /// Current column.
    pub current_x: i32,
    /// Current row; `y` grows downwards, so falling means `y + 1`.
    pub current_y: i32,
    /// Column at the last sync, if the grain has been synced before.
    pub prev_x: Option<i32>,
    /// Row at the last sync, if the grain has been synced before.
    pub prev_y: Option<i32>,
}

/// The position after a move by `(dx, dy)`: the old cell is remembered as
/// the previous position, for the next sync's clear pass.
pub open spec fn moved_position(p: GridPosition, dx: int, dy: int) -> GridPosition {
    GridPosition {
        current_x: (p.current_x + dx) as i32,
        current_y: (p.current_y + dy) as i32,
        prev_x: Some(p.current_x),
        prev_y: Some(p.current_y),
    }
}

/// Shifts a grain by `(x, y)` cells, remembering the cell it leaves.
pub fn move_grain(grid_position: &mut GridPosition, x: i32, y: i32)
    requires
        i32::MIN <= old(grid_position).current_x + x <= i32::MAX,
        i32::MIN <= old(grid_position).current_y + y <= i32::MAX,
    ensures
        *final(grid_position) == moved_position(*old(grid_position), x as int, y as int),
{
    grid_position.prev_x = Some(grid_position.current_x);
    grid_position.prev_y = Some(grid_position.current_y);
    grid_position.current_x = grid_position.current_x + x;
    grid_position.current_y = grid_position.current_y + y;
}

/// Row-major index of a storage-valid cell.
pub open spec fn grid_index(x: int, y: int) -> int {
    y * (GAME_RESOLUTION_X as int) + x
}

/// Bounds-safe read of a grid snapshot: out-of-range cells read as empty.
pub open spec fn grid_at(s: Seq<Option<GrainType>>, x: int, y: int) -> Option<GrainType> {
    if in_bounds(x, y) {
        s[grid_index(x, y)]
    } else {
        None
    }
}

/// Bounds-safe write to a grid snapshot: an out-of-range write is dropped.
pub open spec fn grid_put(
    s: Seq<Option<GrainType>>,
    x: int,
    y: int,
    v: Option<GrainType>,
) -> Seq<Option<GrainType>> {
    if in_bounds(x, y) {
        s.update(grid_index(x, y), v)
    } else {
        s
    }
}

/// Dense store of which grain kind occupies each cell, in row-major order.
pub struct Grid {
    data: Vec<Option<GrainType>>,
}

impl View for Grid {
    type V = Seq<Option<GrainType>>;

    closed spec fn view(&self) -> Seq<Option<GrainType>> {
        self.data@
    }
}

impl Grid {
    /// The grid always stores exactly one cell per storage-valid coordinate.
    pub open spec fn wf(&self) -> bool {
        self@.len() == GAME_RESOLUTION_X * GAME_RESOLUTION_Y
    }

    /// An empty grid: every cell unoccupied.
    pub fn new() -> (g: Grid)
        ensures
            g.wf(),
            forall|x: int, y: int| grid_at(g@, x, y) is None,
    {
        let mut data: Vec<Option<GrainType>> = Vec::new();
        let mut i: usize = 0;
        while i < GAME_RESOLUTION_X * GAME_RESOLUTION_Y
            invariant
                i == data@.len(),
                i <= GAME_RESOLUTION_X * GAME_RESOLUTION_Y,
                forall|k: int| 0 <= k < i ==> data@[k] is None,
            decreases GAME_RESOLUTION_X * GAME_RESOLUTION_Y - i,
        {
            data.push(None);
            i = i + 1;
        }
        Grid { data }
    }

    /// Reads a cell; any coordinate outside `[0, W) x [0, H)` reads as
    /// empty, never as an error, so neighbour lookups at the edge need no
    /// separate bounds branches.
    pub fn get(&self, x: i32, y: i32) -> (r: Option<GrainType>)
        requires
            self.wf(),
        ensures
            r == grid_at(self@, x as int, y as int),
    {
        if x >= 0 && (x as usize) < GAME_RESOLUTION_X && y >= 0 && (y as usize) < GAME_RESOLUTION_Y
        {
            self.data[(y as usize) * GAME_RESOLUTION_X + (x as usize)]
        } else {
            None
        }
    }

    /// Records a grain kind in a cell; a write outside `[0, W) x [0, H)` is
    /// deliberately dropped, never a fault.
    pub fn set(&mut self, x: i32, y: i32, value: GrainType)
        requires
            old(self).wf(),
        ensures
            final(self).wf(),
            final(self)@ == grid_put(old(self)@, x as int, y as int, Some(value)),
    {
        if x >= 0 && (x as usize) < GAME_RESOLUTION_X && y >= 0 && (y as usize) < GAME_RESOLUTION_Y
        {
            self.data.set((y as usize) * GAME_RESOLUTION_X + (x as usize), Some(value));
        }
    }

    /// Empties a cell; a clear outside `[0, W) x [0, H)` is dropped.
    pub fn clear(&mut self, x: i32, y: i32)
        requires
            old(self).wf(),
        ensures
            final(self).wf(),
            final(self)@ == grid_put(old(self)@, x as int, y as int, None),
    {
        if x >= 0 && (x as usize) < GAME_RESOLUTION_X && y >= 0 && (y as usize) < GAME_RESOLUTION_Y
        {
            self.data.set((y as usize) * GAME_RESOLUTION_X + (x as usize), None);
        }
    }
}

/// The snapshot after clearing one grain's known previous cell.
pub open spec fn clear_prev(s: Seq<Option<GrainType>>, gr: Grain) -> Seq<Option<GrainType>> {
    match (gr.position.prev_x, gr.position.prev_y) {
        (Some(px), Some(py)) => grid_put(s, px as int, py as int, None),
        _ => s,
    }
}

/// The snapshot after the clear pass over the first `n` grains.
pub open spec fn clear_upto(
    s: Seq<Option<GrainType>>,
    store: Seq<Grain>,
    n: nat,
) -> Seq<Option<GrainType>>
    decreases n,
{
    if n == 0 {
        s
    } else {
        clear_prev(clear_upto(s, store, (n - 1) as nat), store[n - 1])
    }
}

/// The snapshot after writing one grain's current cell.
pub open spec fn write_grain(s: Seq<Option<GrainType>>, gr: Grain) -> Seq<Option<GrainType>> {
    grid_put(s, gr.position.current_x as int, gr.position.current_y as int, Some(gr.kind))
}

/// The snapshot after the write pass over the first `n` grains.
pub open spec fn write_upto(
    s: Seq<Option<GrainType>>,
    store: Seq<Grain>,
    n: nat,
) -> Seq<Option<GrainType>>
    decreases n,
{
    if n == 0 {
        s
    } else {
        write_grain(write_upto(s, store, (n - 1) as nat), store[n - 1])
    }
}

/// The whole sync: every grain's previous cell is cleared before any
/// grain's current cell is written, so one grain's stale clear can never
/// erase another grain that moved into that very cell this step.
pub open spec fn sync_store(s: Seq<Option<GrainType>>, store: Seq<Grain>) -> Seq<
    Option<GrainType>,
> {
    write_upto(clear_upto(s, store, store.len()), store, store.len())
}

/// A grain as the sync pass leaves it: in place, with its current cell
/// recorded as the cell to clear at the next sync.
pub open spec fn sync_mark(gr: Grain) -> Grain {
    Grain {
        position: GridPosition {
            current_x: gr.position.current_x,
            current_y: gr.position.current_y,
            prev_x: Some(gr.position.current_x),
            prev_y: Some(gr.position.current_y),
        },
        ..gr
    }
}

/// Commits resolved positions into the occupancy grid, producing the
/// snapshot the next step will read, in two passes: first every grain's
/// known previous cell is cleared, then every grain's current cell is
/// written and remembered for the next clear pass. Clearing everything
/// before writing anything keeps one grain's stale clear from erasing a
/// grain that moved into that cell this step. Writes and clears outside
/// storage bounds are dropped.
pub fn update_grid_data(grains: &mut Vec<Grain>, grid_data: &mut Grid)
    requires
        old(grid_data).wf(),
    ensures
        final(grid_data).wf(),
        final(grid_data)@ == sync_store(old(grid_data)@, old(grains)@),
        final(grains)@.len() == old(grains)@.len(),
        forall|i: int|
            0 <= i < old(grains)@.len() ==> final(grains)@[i] == sync_mark(#[trigger] old(
                grains,
            )@[i]),
        crate::laws::sync_ready(old(grains)@, old(grid_data)@) ==> crate::laws::single_occupancy(
            final(grains)@,
            final(grid_data)@,
        ) && crate::laws::distinct_positions(final(grains)@),
{
    let ghost orig = grains@;
    let ghost grid0 = grid_data@;
    let n = grains.len();

    // Clear pass: every grain's previous cell, before any write.
    let mut i: usize = 0;
    while i < n
        invariant
            i <= n,
            n == orig.len(),
            grains@ == orig,
            grid_data.wf(),
            grid_data@ == clear_upto(grid0, orig, i as nat),
        decreases n - i,
    {
        let g = grains[i];
        match (g.position.prev_x, g.position.prev_y) {
            (Some(px), Some(py)) => grid_data.clear(px, py),
            _ => {},
        }
        assert(grid_data@ == clear_upto(grid0, orig, (i + 1) as nat));
        i = i + 1;
    }
    let ghost cleared = grid_data@;

    // Write pass: every grain's current cell, then remember it for the
    // next step's clear pass.
    let mut i: usize = 0;
    while i < n
        invariant
            i <= n,
            n == orig.len(),
            grains@.len() == n,
            grid_data.wf(),
            grid_data@ == write_upto(cleared, orig, i as nat),
            forall|k: int| 0 <= k < i ==> grains@[k] == sync_mark(#[trigger] orig[k]),
            forall|k: int| i <= k < n ==> grains@[k] == orig[k],
        decreases n - i,
    {
        let g = grains[i];
        grid_data.set(g.position.current_x, g.position.current_y, g.kind);
        grains.set(
            i,
            Grain {
                position: GridPosition {
                    current_x: g.position.current_x,
                    current_y: g.position.current_y,
                    prev_x: Some(g.position.current_x),
                    prev_y: Some(g.position.current_y),
                },
                ..g
            },
        );
        assert(grid_data@ == write_upto(cleared, orig, (i + 1) as nat));
        i = i + 1;
    }
    assert(grid_data@ == sync_store(grid0, orig));
    proof {
        if crate::laws::sync_ready(orig, grid0) {
            crate::laws::lemma_sync_single_occupancy(grid0, orig);
            crate::laws::lemma_mark_transfer(orig, sync_store(grid0, orig));
            assert(grains@ =~= crate::frame::synced_store(orig));
        }
    }
}

} // verus!
