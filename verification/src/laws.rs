//! The properties the automaton is built around, stated and proved over
//! the same spec functions its contracts use.

use vstd::prelude::*;

use crate::blood::blood_resolve;
use crate::boundaries::{in_bounds, interior_active};
use crate::constants::{
    BLOOD_SAFE_TIME, BLOOD_SPAWN_GRACE, GAME_RESOLUTION_X, GAME_RESOLUTION_Y, SAND_SETTLE_TIME,
};
use crate::grain::{
    arb_conflict, arb_revert, arb_upto, grain_resolve, grain_wf,
    resolved_store, same_cell, step_store, Direction, Grain, GrainType,
};
use crate::grid::{
    clear_prev, clear_upto, grid_at, grid_put, moved_position, sync_store, write_grain,
    write_upto, GridPosition,
};
use crate::sand::sand_resolve;
use crate::water::water_resolve;

verus! {

/// The grain occupies the cell `(x, y)`.
pub open spec fn at_cell(gr: Grain, x: int, y: int) -> bool {
    gr.position.current_x as int == x && gr.position.current_y as int == y
}

/// The grain has a recorded previous cell.
pub open spec fn has_prev(gr: Grain) -> bool {
    gr.position.prev_x is Some && gr.position.prev_y is Some
}

/// The grain's recorded previous cell is `(x, y)`.
pub open spec fn prev_at_cell(gr: Grain, x: int, y: int) -> bool {
    match (gr.position.prev_x, gr.position.prev_y) {
        (Some(px), Some(py)) => px as int == x && py as int == y,
        _ => false,
    }
}

/// The grain is at rest with respect to the grid: either never synced yet,
/// or its recorded previous cell is the cell it stands on.
pub open spec fn grain_parked(gr: Grain) -> bool {
    ||| (gr.position.prev_x is None && gr.position.prev_y is None)
    ||| (gr.position.prev_x == Some(gr.position.current_x) && gr.position.prev_y == Some(
        gr.position.current_y,
    ))
}

/// Every grain stands on a storage-valid cell.
pub open spec fn store_in_bounds(store: Seq<Grain>) -> bool {
    forall|i: int|
        0 <= i < store.len() ==> in_bounds(
            (#[trigger] store[i]).position.current_x as int,
            store[i].position.current_y as int,
        )
}

/// No two distinct grains occupy the same cell.
pub open spec fn distinct_positions(store: Seq<Grain>) -> bool {
    forall|i: int, j: int|
        0 <= i < store.len() && 0 <= j < store.len() && i != j ==> !same_cell(
            (#[trigger] store[i]).position,
            (#[trigger] store[j]).position,
        )
}

/// Every grain is at rest with respect to the grid.
pub open spec fn store_parked(store: Seq<Grain>) -> bool {
    forall|i: int| 0 <= i < store.len() ==> grain_parked(#[trigger] store[i])
}

/// The grid records exactly the grains that have been synced before:
/// each synced grain's cell reads as its kind, and every occupied cell is
/// some synced grain's cell.
pub open spec fn grid_matches_store(store: Seq<Grain>, g: Seq<Option<GrainType>>) -> bool {
    &&& (forall|i: int|
        0 <= i < store.len() && has_prev(#[trigger] store[i]) ==> grid_at(
            g,
            store[i].position.current_x as int,
            store[i].position.current_y as int,
        ) == Some(store[i].kind))
    &&& (forall|x: int, y: int|
        in_bounds(x, y) && (#[trigger] grid_at(g, x, y)) is Some ==> exists|i: int|
            0 <= i < store.len() && at_cell(#[trigger] store[i], x, y) && has_prev(store[i])
                && store[i].kind == grid_at(g, x, y)->0)
}

/// The single-occupancy reading of a grid against a store: each grain's
/// cell reads as exactly its kind, and every occupied cell belongs to a
/// grain of the kind it shows. Together with `distinct_positions` this
/// says a cell is occupied if and only if exactly one grain stands on it.
pub open spec fn single_occupancy(store: Seq<Grain>, g: Seq<Option<GrainType>>) -> bool {
    &&& (forall|i: int|
        0 <= i < store.len() ==> grid_at(
            g,
            (#[trigger] store[i]).position.current_x as int,
            store[i].position.current_y as int,
        ) == Some(store[i].kind))
    &&& (forall|x: int, y: int|
        in_bounds(x, y) && (#[trigger] grid_at(g, x, y)) is Some ==> exists|i: int|
            0 <= i < store.len() && at_cell(#[trigger] store[i], x, y) && store[i].kind == grid_at(
                g,
                x,
                y,
            )->0)
}

/// A bounds-safe write changes exactly the written cell.
proof fn lemma_grid_put_at(s: Seq<Option<GrainType>>, x: int, y: int, v: Option<GrainType>)
    requires
        s.len() == GAME_RESOLUTION_X * GAME_RESOLUTION_Y,
    ensures
        grid_put(s, x, y, v).len() == s.len(),
        forall|a: int, b: int|
            #[trigger] grid_at(grid_put(s, x, y, v), a, b) == if in_bounds(x, y) && a == x && b
                == y {
                v
            } else {
                grid_at(s, a, b)
            },
{
    assert forall|a: int, b: int|
        #[trigger] grid_at(grid_put(s, x, y, v), a, b) == if in_bounds(x, y) && a == x && b == y {
            v
        } else {
            grid_at(s, a, b)
        } by {
        if in_bounds(x, y) && in_bounds(a, b) {
            assert(0 <= y * (GAME_RESOLUTION_X as int) + x < s.len());
            assert(0 <= b * (GAME_RESOLUTION_X as int) + a < s.len());
            if a == x && b == y {
            } else {
                assert(b * (GAME_RESOLUTION_X as int) + a != y * (GAME_RESOLUTION_X as int) + x);
            }
        }
    }
}

/// After the clear pass over the first `m` grains, exactly the cells their
/// previous positions own read as empty; every other cell is untouched.
proof fn lemma_clear_upto_at(g: Seq<Option<GrainType>>, store: Seq<Grain>, m: nat)
    requires
        g.len() == GAME_RESOLUTION_X * GAME_RESOLUTION_Y,
        m <= store.len(),
    ensures
        clear_upto(g, store, m).len() == g.len(),
        forall|x: int, y: int|
            #[trigger] grid_at(clear_upto(g, store, m), x, y) == if in_bounds(x, y) && (exists|
                i: int,
            |
                0 <= i < m && prev_at_cell(#[trigger] store[i], x, y)) {
                None
            } else {
                grid_at(g, x, y)
            },
    decreases m,
{
    if m > 0 {
        let i = (m - 1) as int;
        lemma_clear_upto_at(g, store, (m - 1) as nat);
        let gprev = clear_upto(g, store, (m - 1) as nat);
        let gnow = clear_upto(g, store, m);
        assert(gnow == clear_prev(gprev, store[i]));
        match (store[i].position.prev_x, store[i].position.prev_y) {
            (Some(px), Some(py)) => {
                lemma_grid_put_at(gprev, px as int, py as int, None);
            },
            _ => {},
        }
        assert forall|x: int, y: int|
            #[trigger] grid_at(gnow, x, y) == if in_bounds(x, y) && (exists|i0: int|
                0 <= i0 < m && prev_at_cell(#[trigger] store[i0], x, y)) {
                None
            } else {
                grid_at(g, x, y)
            } by {
            if !in_bounds(x, y) {
                assert(grid_at(gnow, x, y) is None && grid_at(g, x, y) is None);
            } else if prev_at_cell(store[i], x, y) {
                assert(grid_at(gnow, x, y) is None);
                assert(0 <= i < m && prev_at_cell(store[i], x, y));
            } else {
                assert(grid_at(gnow, x, y) == grid_at(gprev, x, y));
                if exists|i0: int| 0 <= i0 < m - 1 && prev_at_cell(#[trigger] store[i0], x, y) {
                    let i0 = choose|i0: int|
                        0 <= i0 < m - 1 && prev_at_cell(#[trigger] store[i0], x, y);
                    assert(0 <= i0 < m && prev_at_cell(store[i0], x, y));
                } else {
                    assert(!(exists|i0: int|
                        0 <= i0 < m && prev_at_cell(#[trigger] store[i0], x, y))) by {
                        if exists|i0: int| 0 <= i0 < m && prev_at_cell(#[trigger] store[i0], x, y) {
                            let i0 = choose|i0: int|
                                0 <= i0 < m && prev_at_cell(#[trigger] store[i0], x, y);
                            assert(i0 == i || 0 <= i0 < m - 1);
                            assert(false);
                        }
                    }
                }
            }
        }
    }
}

/// After the write pass over the first `m` grains of a store without
/// shared cells: each of their cells reads as its kind, and every other
/// cell is untouched.
proof fn lemma_write_upto_at(g: Seq<Option<GrainType>>, store: Seq<Grain>, m: nat)
    requires
        g.len() == GAME_RESOLUTION_X * GAME_RESOLUTION_Y,
        store_in_bounds(store),
        distinct_positions(store),
        m <= store.len(),
    ensures
        write_upto(g, store, m).len() == g.len(),
        forall|i: int|
            0 <= i < m ==> grid_at(
                write_upto(g, store, m),
                (#[trigger] store[i]).position.current_x as int,
                store[i].position.current_y as int,
            ) == Some(store[i].kind),
        forall|x: int, y: int|
            in_bounds(x, y) && (#[trigger] grid_at(write_upto(g, store, m), x, y)) is Some ==> (
            exists|i: int|
                0 <= i < m && at_cell(#[trigger] store[i], x, y) && store[i].kind == grid_at(
                    write_upto(g, store, m),
                    x,
                    y,
                )->0) || grid_at(write_upto(g, store, m), x, y) == grid_at(g, x, y),
    decreases m,
{
    if m > 0 {
        let i = (m - 1) as int;
        lemma_write_upto_at(g, store, (m - 1) as nat);
        let gprev = write_upto(g, store, (m - 1) as nat);
        let gnow = write_upto(g, store, m);
        assert(gnow == write_grain(gprev, store[i]));
        lemma_grid_put_at(
            gprev,
            store[i].position.current_x as int,
            store[i].position.current_y as int,
            Some(store[i].kind),
        );

        // Each already-written grain's cell still reads as its kind.
        assert forall|i0: int|
            0 <= i0 < m implies grid_at(
            gnow,
            (#[trigger] store[i0]).position.current_x as int,
            store[i0].position.current_y as int,
        ) == Some(store[i0].kind) by {
            let cx = store[i0].position.current_x as int;
            let cy = store[i0].position.current_y as int;
            if i0 == i {
                assert(in_bounds(cx, cy));
            } else {
                assert(!same_cell(store[i].position, store[i0].position));
                assert(grid_at(gnow, cx, cy) == grid_at(gprev, cx, cy));
            }
        }

        // Every occupied cell is a written grain's cell or untouched.
        assert forall|x: int, y: int|
            in_bounds(x, y) && (#[trigger] grid_at(gnow, x, y)) is Some implies (exists|i0: int|
            0 <= i0 < m && at_cell(#[trigger] store[i0], x, y) && store[i0].kind == grid_at(
                gnow,
                x,
                y,
            )->0) || grid_at(gnow, x, y) == grid_at(g, x, y) by {
            if at_cell(store[i], x, y) {
                assert(grid_at(gnow, x, y) == Some(store[i].kind));
                assert(0 <= i < m && at_cell(store[i], x, y) && store[i].kind == grid_at(
                    gnow,
                    x,
                    y,
                )->0);
            } else {
                assert(grid_at(gnow, x, y) == grid_at(gprev, x, y));
                if exists|i0: int|
                    0 <= i0 < m - 1 && at_cell(#[trigger] store[i0], x, y) && store[i0].kind
                        == grid_at(gprev, x, y)->0 {
                    let i0 = choose|i0: int|
                        0 <= i0 < m - 1 && at_cell(#[trigger] store[i0], x, y) && store[i0].kind
                            == grid_at(gprev, x, y)->0;
                    assert(0 <= i0 < m && at_cell(store[i0], x, y) && store[i0].kind == grid_at(
                        gnow,
                        x,
                        y,
                    )->0);
                }
            }
        }
    }
}

/// The conditions under which the two-pass sync is exact: grains on
/// distinct storage-valid cells, and no occupied grid cell that no grain's
/// previous cell owns.
pub open spec fn sync_ready(store: Seq<Grain>, g: Seq<Option<GrainType>>) -> bool {
    &&& g.len() == GAME_RESOLUTION_X * GAME_RESOLUTION_Y
    &&& store_in_bounds(store)
    &&& distinct_positions(store)
    &&& (forall|x: int, y: int|
        in_bounds(x, y) && (#[trigger] grid_at(g, x, y)) is Some ==> exists|j: int|
            0 <= j < store.len() && prev_at_cell(#[trigger] store[j], x, y))
}

/// After the whole clear-all-then-write-all sync over a sync-ready store,
/// the grid is the single-occupancy picture of that store. Because every
/// clear happens before any write, no grain's stale clear can erase a
/// grain that moved into that cell this step — even a grain that moved
/// into another grain's vacated cell is shown.
pub proof fn lemma_sync_single_occupancy(g: Seq<Option<GrainType>>, store: Seq<Grain>)
    requires
        sync_ready(store, g),
    ensures
        sync_store(g, store).len() == g.len(),
        single_occupancy(store, sync_store(g, store)),
{
    let m = store.len();
    let cleared = clear_upto(g, store, m);
    let gfin = sync_store(g, store);
    lemma_clear_upto_at(g, store, m);
    lemma_write_upto_at(cleared, store, m);
    assert(gfin == write_upto(cleared, store, m));
    assert forall|x: int, y: int|
        in_bounds(x, y) && (#[trigger] grid_at(gfin, x, y)) is Some implies exists|i: int|
        0 <= i < store.len() && at_cell(#[trigger] store[i], x, y) && store[i].kind == grid_at(
            gfin,
            x,
            y,
        )->0 by {
        if exists|i: int|
            0 <= i < m && at_cell(#[trigger] store[i], x, y) && store[i].kind == grid_at(
                gfin,
                x,
                y,
            )->0 {
            let i = choose|i: int|
                0 <= i < m && at_cell(#[trigger] store[i], x, y) && store[i].kind == grid_at(
                    gfin,
                    x,
                    y,
                )->0;
            assert(0 <= i < store.len() && at_cell(store[i], x, y) && store[i].kind == grid_at(
                gfin,
                x,
                y,
            )->0);
        } else {
            // The cell was not written, so it survived from the cleared
            // grid; a surviving occupied cell would be one no grain's
            // previous position owns, which sync-readiness rules out.
            assert(grid_at(gfin, x, y) == grid_at(cleared, x, y));
            assert(grid_at(cleared, x, y) == grid_at(g, x, y));
            let j = choose|j: int| 0 <= j < store.len() && prev_at_cell(#[trigger] store[j], x, y);
            assert(0 <= j < m && prev_at_cell(store[j], x, y));
            assert(grid_at(cleared, x, y) is None);
            assert(false);
        }
    }
}

/// What one resolution step may do to one grain, whatever its kind: keep
/// it in place entirely, or move it from an interior-active cell to a
/// storage-valid cell that the snapshot shows empty, remembering the cell
/// it left. Kind and well-formedness are preserved.
pub open spec fn resolve_step_ok(gr: Grain, g: Seq<Option<GrainType>>, r: Grain) -> bool {
    &&& r.kind == gr.kind
    &&& (same_cell(r.position, gr.position) ==> r.position == gr.position)
    &&& (!same_cell(r.position, gr.position) ==> {
        &&& interior_active(gr.position.current_x as int, gr.position.current_y as int)
        &&& in_bounds(r.position.current_x as int, r.position.current_y as int)
        &&& grid_at(g, r.position.current_x as int, r.position.current_y as int) is None
        &&& r.position.prev_x == Some(gr.position.current_x)
        &&& r.position.prev_y == Some(gr.position.current_y)
    })
    &&& (grain_wf(gr) ==> grain_wf(r))
}

/// Every kind's rule moves a grain only onto a cell the pre-step snapshot
/// shows empty, and only from inside the interior band, so the target is
/// storage-valid.
pub proof fn lemma_grain_resolve_ok(gr: Grain, g: Seq<Option<GrainType>>, roll: u32)
    ensures
        resolve_step_ok(gr, g, grain_resolve(gr, g, roll)),
{
    let r = grain_resolve(gr, g, roll);
    match gr.kind {
        GrainType::Sand => {
            assert(resolve_step_ok(gr, g, r));
        },
        GrainType::Water => {
            assert(resolve_step_ok(gr, g, r));
        },
        GrainType::Blood => {
            assert(resolve_step_ok(gr, g, r));
        },
        GrainType::Bone => {
            assert(resolve_step_ok(gr, g, r));
        },
    }
}

/// What the arbitration pass guarantees for its first `m` grains: a grain
/// either stands on its pre-step cell, or it keeps a committed move whose
/// destination differs from every other grain's pre-step cell and from
/// every earlier-committed grain's cell. Grains beyond `m` are untouched.
proof fn lemma_arb_facts(olds: Seq<Grain>, cur: Seq<Grain>, m: nat)
    requires
        olds.len() == cur.len(),
        m <= cur.len(),
    ensures
        arb_upto(olds, cur, m).len() == cur.len(),
        forall|k: int| m <= k < cur.len() ==> arb_upto(olds, cur, m)[k] == cur[k],
        forall|k: int|
            0 <= k < m ==> (#[trigger] arb_upto(olds, cur, m)[k]) == cur[k] || arb_upto(
                olds,
                cur,
                m,
            )[k] == arb_revert(olds[k], cur[k]),
        forall|k: int, j: int|
            0 <= k < m && 0 <= j < olds.len() && j != k && !same_cell(
                (#[trigger] arb_upto(olds, cur, m)[k]).position,
                olds[k].position,
            ) ==> !same_cell((#[trigger] olds[j]).position, arb_upto(olds, cur, m)[k].position),
        forall|k: int, j: int|
            0 <= j < k < m && !same_cell(
                (#[trigger] arb_upto(olds, cur, m)[k]).position,
                olds[k].position,
            ) ==> !same_cell(
                (#[trigger] arb_upto(olds, cur, m)[j]).position,
                arb_upto(olds, cur, m)[k].position,
            ),
    decreases m,
{
    if m > 0 {
        let i = (m - 1) as int;
        lemma_arb_facts(olds, cur, (m - 1) as nat);
        let prev = arb_upto(olds, cur, (m - 1) as nat);
        let now = arb_upto(olds, cur, m);
        assert(prev[i] == cur[i]);
        if !same_cell(olds[i].position, prev[i].position) && arb_conflict(olds, prev, i) {
            assert(now == prev.update(i, arb_revert(olds[i], prev[i])));
            assert(same_cell(now[i].position, olds[i].position));
        } else {
            assert(now == prev);
            if !same_cell(olds[i].position, prev[i].position) {
                // The move at `i` was committed: nothing else claims its cell.
                assert forall|j: int|
                    0 <= j < olds.len() && j != i implies !same_cell(
                    (#[trigger] olds[j]).position,
                    now[i].position,
                ) by {
                    if same_cell(olds[j].position, now[i].position) {
                        assert(arb_conflict(olds, prev, i));
                    }
                }
                assert forall|j: int| 0 <= j < i implies !same_cell(
                    (#[trigger] now[j]).position,
                    now[i].position,
                ) by {
                    if same_cell(now[j].position, now[i].position) {
                        assert(same_cell(prev[j].position, prev[i].position));
                        assert(arb_conflict(olds, prev, i));
                    }
                }
            }
        }
    }
}

/// After arbitration, no two grains stand on the same cell — provided no
/// two stood on the same cell before the step.
proof fn lemma_arb_distinct(olds: Seq<Grain>, cur: Seq<Grain>)
    requires
        olds.len() == cur.len(),
        distinct_positions(olds),
    ensures
        distinct_positions(arb_upto(olds, cur, cur.len())),
{
    let m = cur.len();
    let fin = arb_upto(olds, cur, m);
    lemma_arb_facts(olds, cur, m);
    assert forall|k: int, l: int|
        0 <= k < fin.len() && 0 <= l < fin.len() && k != l implies !same_cell(
        (#[trigger] fin[k]).position,
        (#[trigger] fin[l]).position,
    ) by {
        let moved_k = !same_cell(fin[k].position, olds[k].position);
        let moved_l = !same_cell(fin[l].position, olds[l].position);
        if !moved_k && !moved_l {
            assert(!same_cell(olds[k].position, olds[l].position));
        } else if moved_k && !moved_l {
            assert(!same_cell(olds[l].position, fin[k].position));
        } else if !moved_k && moved_l {
            assert(!same_cell(olds[k].position, fin[l].position));
        } else {
            if l < k {
                assert(!same_cell(fin[l].position, fin[k].position));
            } else {
                assert(!same_cell(fin[k].position, fin[l].position));
            }
        }
    }
}

/// A simulation step keeps the store sync-ready: grains still stand on
/// distinct storage-valid cells, every recorded previous cell is its own
/// grain's pre-step cell, and the untouched snapshot still matches. Kinds
/// and well-formedness carry through.
proof fn lemma_step_sync_ready(store: Seq<Grain>, g: Seq<Option<GrainType>>, rolls: Seq<u32>)
    requires
        g.len() == GAME_RESOLUTION_X * GAME_RESOLUTION_Y,
        store_in_bounds(store),
        distinct_positions(store),
        store_parked(store),
        grid_matches_store(store, g),
    ensures
        step_store(store, g, rolls).len() == store.len(),
        sync_ready(step_store(store, g, rolls), g),
        forall|k: int|
            0 <= k < store.len() ==> (#[trigger] step_store(store, g, rolls)[k]).kind
                == store[k].kind,
        forall|k: int|
            0 <= k < store.len() && grain_wf(#[trigger] store[k]) ==> grain_wf(
                step_store(store, g, rolls)[k],
            ),
        forall|k: int, x: int, y: int|
            0 <= k < store.len() && #[trigger] prev_at_cell(step_store(store, g, rolls)[k], x, y)
                ==> at_cell(store[k], x, y),
{
    let n = store.len();
    let r = resolved_store(store, g, rolls);
    let s = step_store(store, g, rolls);
    lemma_arb_facts(store, r, n);
    lemma_arb_distinct(store, r);
    assert forall|k: int| 0 <= k < n implies resolve_step_ok(
        store[k],
        g,
        #[trigger] r[k],
    ) by {
        lemma_grain_resolve_ok(store[k], g, rolls[k]);
    }

    // Every recorded previous cell after the step is that grain's own
    // pre-step cell, and each grain is on its pre-step cell or a committed
    // move's target.
    assert forall|k: int, x: int, y: int|
        0 <= k < n && #[trigger] prev_at_cell(s[k], x, y) implies at_cell(store[k], x, y) by {
        assert(grain_parked(store[k]));
        if s[k] == r[k] {
            if same_cell(r[k].position, store[k].position) {
                assert(r[k].position == store[k].position);
            }
        } else {
            assert(s[k] == arb_revert(store[k], r[k]));
        }
    }
    assert forall|k: int| 0 <= k < n implies in_bounds(
        (#[trigger] s[k]).position.current_x as int,
        s[k].position.current_y as int,
    ) && ((#[trigger] s[k]).position.prev_x is Some <==> s[k].position.prev_y is Some) && s[k].kind
        == store[k].kind && (grain_wf(store[k]) ==> grain_wf(s[k])) by {
        assert(grain_parked(store[k]));
        if s[k] == r[k] {
            if same_cell(r[k].position, store[k].position) {
                assert(r[k].position == store[k].position);
            }
        } else {
            assert(s[k] == arb_revert(store[k], r[k]));
        }
    }

    // Every occupied snapshot cell is owned by some grain's previous cell.
    assert forall|x: int, y: int|
        in_bounds(x, y) && (#[trigger] grid_at(g, x, y)) is Some implies exists|j: int|
        0 <= j < s.len() && prev_at_cell(#[trigger] s[j], x, y) by {
        let i = choose|i: int|
            0 <= i < store.len() && at_cell(#[trigger] store[i], x, y) && has_prev(store[i])
                && store[i].kind == grid_at(g, x, y)->0;
        assert(grain_parked(store[i]));
        if s[i] == r[i] {
            if same_cell(r[i].position, store[i].position) {
                assert(r[i].position == store[i].position);
                assert(prev_at_cell(s[i], x, y));
            } else {
                assert(prev_at_cell(s[i], x, y));
            }
        } else {
            assert(s[i] == arb_revert(store[i], r[i]));
            assert(prev_at_cell(s[i], x, y));
        }
    }
}

/// The state invariant that holds right after every sync: grains on
/// distinct storage-valid cells, at rest with respect to the grid, and the
/// grid showing exactly the synced grains. Spawning keeps it (see
/// `lemma_spawn_keeps_invariant`) and so does every poll (see
/// `lemma_frame_single_occupancy`).
pub open spec fn store_invariant(store: Seq<Grain>, g: Seq<Option<GrainType>>) -> bool {
    &&& g.len() == GAME_RESOLUTION_X * GAME_RESOLUTION_Y
    &&& store_in_bounds(store)
    &&& distinct_positions(store)
    &&& store_parked(store)
    &&& grid_matches_store(store, g)
}

/// Single occupancy, across a whole poll: starting from any state the
/// invariant admits, one simulation step followed by the sync leaves the
/// grid showing each grain's kind at its cell and nothing anywhere else —
/// whatever rolls the step consumed. The invariant holds again afterwards,
/// so the property carries to every later poll.
pub proof fn lemma_frame_single_occupancy(
    store: Seq<Grain>,
    g: Seq<Option<GrainType>>,
    rolls: Seq<u32>,
)
    requires
        store_invariant(store, g),
    ensures
        step_store(store, g, rolls).len() == store.len(),
        single_occupancy(
            crate::frame::synced_store(step_store(store, g, rolls)),
            sync_store(g, step_store(store, g, rolls)),
        ),
        distinct_positions(crate::frame::synced_store(step_store(store, g, rolls))),
        store_invariant(
            crate::frame::synced_store(step_store(store, g, rolls)),
            sync_store(g, step_store(store, g, rolls)),
        ),
{
    let s = step_store(store, g, rolls);
    lemma_step_sync_ready(store, g, rolls);
    lemma_sync_single_occupancy(g, s);
    lemma_mark_transfer(s, sync_store(g, s));
}

/// What the sync pass's marking does to the invariant: positions and kinds
/// stay, and every grain is parked on its own cell afterwards.
pub(crate) proof fn lemma_mark_transfer(s: Seq<Grain>, gfin: Seq<Option<GrainType>>)
    requires
        single_occupancy(s, gfin),
        distinct_positions(s),
        store_in_bounds(s),
        gfin.len() == GAME_RESOLUTION_X * GAME_RESOLUTION_Y,
    ensures
        single_occupancy(crate::frame::synced_store(s), gfin),
        store_invariant(crate::frame::synced_store(s), gfin),
{
    let marked = crate::frame::synced_store(s);
    assert(marked.len() == s.len());
    assert(forall|k: int|
        0 <= k < s.len() ==> (#[trigger] marked[k]).position.current_x
            == s[k].position.current_x && marked[k].position.current_y == s[k].position.current_y
            && marked[k].kind == s[k].kind && has_prev(marked[k]) && grain_parked(marked[k]));
    assert(forall|k: int|
        0 <= k < s.len() ==> same_cell((#[trigger] marked[k]).position, s[k].position));

    assert forall|i: int|
        0 <= i < marked.len() implies grid_at(
        gfin,
        (#[trigger] marked[i]).position.current_x as int,
        marked[i].position.current_y as int,
    ) == Some(marked[i].kind) by {
        assert(grid_at(gfin, s[i].position.current_x as int, s[i].position.current_y as int)
            == Some(s[i].kind));
    }
    assert forall|x: int, y: int|
        in_bounds(x, y) && (#[trigger] grid_at(gfin, x, y)) is Some implies exists|i: int|
        0 <= i < marked.len() && at_cell(#[trigger] marked[i], x, y) && has_prev(marked[i])
            && marked[i].kind == grid_at(gfin, x, y)->0 by {
        let i = choose|i: int|
            0 <= i < s.len() && at_cell(#[trigger] s[i], x, y) && s[i].kind == grid_at(
                gfin,
                x,
                y,
            )->0;
        assert(at_cell(marked[i], x, y) && has_prev(marked[i]) && marked[i].kind == grid_at(
            gfin,
            x,
            y,
        )->0);
    }
    assert forall|i: int, j: int|
        0 <= i < marked.len() && 0 <= j < marked.len() && i != j implies !same_cell(
        (#[trigger] marked[i]).position,
        (#[trigger] marked[j]).position,
    ) by {
        assert(!same_cell(s[i].position, s[j].position));
    }
}

/// A poll on which the clock gate fires no step only re-commits the store:
/// the invariant and single occupancy hold just the same afterwards. This
/// is the poll that first shows freshly spawned grains on the grid.
pub proof fn lemma_nonstep_frame_single_occupancy(store: Seq<Grain>, g: Seq<Option<GrainType>>)
    requires
        store_invariant(store, g),
    ensures
        single_occupancy(crate::frame::synced_store(store), sync_store(g, store)),
        store_invariant(crate::frame::synced_store(store), sync_store(g, store)),
{
    assert forall|x: int, y: int|
        in_bounds(x, y) && (#[trigger] grid_at(g, x, y)) is Some implies exists|j: int|
        0 <= j < store.len() && prev_at_cell(#[trigger] store[j], x, y) by {
        let i = choose|i: int|
            0 <= i < store.len() && at_cell(#[trigger] store[i], x, y) && has_prev(store[i])
                && store[i].kind == grid_at(g, x, y)->0;
        assert(grain_parked(store[i]));
        assert(prev_at_cell(store[i], x, y));
    }
    assert(sync_ready(store, g));
    lemma_sync_single_occupancy(g, store);
    lemma_mark_transfer(store, sync_store(g, store));
}

/// Spawning onto a free cell keeps the invariant: the fresh grain stands
/// on its own storage-valid cell, has nothing to clear yet, and the grid
/// does not show it until the next sync.
pub proof fn lemma_spawn_keeps_invariant(store: Seq<Grain>, g: Seq<Option<GrainType>>, gr: Grain)
    requires
        store_invariant(store, g),
        in_bounds(gr.position.current_x as int, gr.position.current_y as int),
        gr.position.prev_x is None,
        gr.position.prev_y is None,
        forall|i: int|
            0 <= i < store.len() ==> !same_cell((#[trigger] store[i]).position, gr.position),
    ensures
        store_invariant(store.push(gr), g),
{
    let pushed = store.push(gr);
    assert(forall|i: int| 0 <= i < store.len() ==> #[trigger] pushed[i] == store[i]);
    assert(pushed[store.len() as int] == gr);
    assert(!has_prev(gr));
    assert forall|x: int, y: int|
        in_bounds(x, y) && (#[trigger] grid_at(g, x, y)) is Some implies exists|i: int|
        0 <= i < pushed.len() && at_cell(#[trigger] pushed[i], x, y) && has_prev(pushed[i])
            && pushed[i].kind == grid_at(g, x, y)->0 by {
        let i = choose|i: int|
            0 <= i < store.len() && at_cell(#[trigger] store[i], x, y) && has_prev(store[i])
                && store[i].kind == grid_at(g, x, y)->0;
        assert(0 <= i < pushed.len() && at_cell(pushed[i], x, y) && has_prev(pushed[i])
            && pushed[i].kind == grid_at(g, x, y)->0);
    }
}

/// What one step leaves of a grain sharing the grid with one other grain:
/// its own resolution against the snapshot, taken back only if it moved
/// onto the other grain's pre-step cell. The outcome mentions no order.
pub open spec fn two_grain_outcome(
    gr: Grain,
    other: Grain,
    g: Seq<Option<GrainType>>,
    roll: u32,
) -> Grain {
    let r = grain_resolve(gr, g, roll);
    if !same_cell(r.position, gr.position) && same_cell(r.position, other.position) {
        arb_revert(gr, r)
    } else {
        r
    }
}

/// A step over a two-grain store computes each grain's outcome from that
/// grain, the other grain and the snapshot alone — in store order, but
/// with an order-free result — provided the two moves do not compute the
/// same destination.
proof fn lemma_step_two(x: Grain, y: Grain, g: Seq<Option<GrainType>>, rx: u32, ry: u32)
    requires
        !(!same_cell(grain_resolve(x, g, rx).position, x.position) && !same_cell(
            grain_resolve(y, g, ry).position,
            y.position,
        ) && same_cell(grain_resolve(x, g, rx).position, grain_resolve(y, g, ry).position)),
    ensures
        step_store(seq![x, y], g, seq![rx, ry]) =~= seq![
            two_grain_outcome(x, y, g, rx),
            two_grain_outcome(y, x, g, ry),
        ],
{
    let olds = seq![x, y];
    let rolls = seq![rx, ry];
    let rxg = grain_resolve(x, g, rx);
    let ryg = grain_resolve(y, g, ry);
    let r = resolved_store(olds, g, rolls);
    assert(r.len() == 2 && r[0] == rxg && r[1] == ryg);
    let a0 = arb_upto(olds, r, 0);
    assert(a0 == r);
    let a1 = arb_upto(olds, r, 1);
    let a2 = arb_upto(olds, r, 2);
    let fx = two_grain_outcome(x, y, g, rx);
    let fy = two_grain_outcome(y, x, g, ry);

    if !same_cell(olds[0].position, r[0].position) {
        if same_cell(rxg.position, y.position) {
            assert(same_cell(olds[1].position, r[0].position));
            assert(arb_conflict(olds, r, 0));
            assert(a1 == r.update(0, arb_revert(x, rxg)));
        } else {
            assert(!arb_conflict(olds, r, 0)) by {
                if exists|j: int|
                    0 <= j < olds.len() && j != 0 && same_cell(
                        (#[trigger] olds[j]).position,
                        r[0].position,
                    ) {
                    let j = choose|j: int|
                        0 <= j < olds.len() && j != 0 && same_cell(
                            (#[trigger] olds[j]).position,
                            r[0].position,
                        );
                    assert(j == 1);
                    assert(false);
                }
                if exists|j: int| 0 <= j < 0 && same_cell((#[trigger] r[j]).position, r[0].position) {
                    let j = choose|j: int|
                        0 <= j < 0 && same_cell((#[trigger] r[j]).position, r[0].position);
                    assert(false);
                }
            }
            assert(a1 == r);
        }
    } else {
        assert(a1 == r);
    }
    assert(a1.len() == 2 && a1[0] == fx && a1[1] == ryg);

    if !same_cell(olds[1].position, a1[1].position) {
        if same_cell(ryg.position, x.position) {
            assert(same_cell(olds[0].position, a1[1].position));
            assert(arb_conflict(olds, a1, 1));
            assert(a2 == a1.update(1, arb_revert(y, ryg)));
            assert(fy == arb_revert(y, ryg));
        } else {
            assert(!arb_conflict(olds, a1, 1)) by {
                if exists|j: int|
                    0 <= j < olds.len() && j != 1 && same_cell(
                        (#[trigger] olds[j]).position,
                        a1[1].position,
                    ) {
                    let j = choose|j: int|
                        0 <= j < olds.len() && j != 1 && same_cell(
                            (#[trigger] olds[j]).position,
                            a1[1].position,
                        );
                    assert(j == 0);
                    assert(false);
                }
                if exists|j: int|
                    0 <= j < 1 && same_cell((#[trigger] a1[j]).position, a1[1].position) {
                    let j = choose|j: int|
                        0 <= j < 1 && same_cell((#[trigger] a1[j]).position, a1[1].position);
                    assert(j == 0);
                    assert(same_cell(fx.position, ryg.position));
                    if same_cell(fx.position, x.position) {
                        assert(same_cell(x.position, ryg.position));
                        assert(false);
                    } else {
                        assert(fx == rxg && !same_cell(rxg.position, x.position));
                        assert(same_cell(rxg.position, ryg.position));
                        assert(false);
                    }
                }
            }
            assert(a2 == a1);
            assert(fy == ryg);
        }
    } else {
        assert(a2 == a1);
        assert(fy == ryg);
    }
    assert(step_store(olds, g, rolls) == a2);
    assert(a2 =~= seq![fx, fy]);
}

/// Snapshot isolation: with two grains on the grid, resolving them in
/// either order and syncing yields the same grid, whatever the rolls — in
/// particular when one grain's move would occupy the other's pre-step
/// cell. The one configuration this cannot cover is two moves that compute
/// the very same destination, which the tie-break must order.
#[verifier::rlimit(80)]
#[verifier::spinoff_prover]
pub proof fn lemma_snapshot_isolation(
    a: Grain,
    b: Grain,
    g: Seq<Option<GrainType>>,
    roll_a: u32,
    roll_b: u32,
)
    requires
        store_invariant(seq![a, b], g),
        !(!same_cell(grain_resolve(a, g, roll_a).position, a.position) && !same_cell(
            grain_resolve(b, g, roll_b).position,
            b.position,
        ) && same_cell(grain_resolve(a, g, roll_a).position, grain_resolve(b, g, roll_b).position)),
    ensures
        sync_store(g, step_store(seq![a, b], g, seq![roll_a, roll_b])) == sync_store(
            g,
            step_store(seq![b, a], g, seq![roll_b, roll_a]),
        ),
{
    let s1 = seq![a, b];
    let s2 = seq![b, a];
    let rolls1 = seq![roll_a, roll_b];
    let rolls2 = seq![roll_b, roll_a];
    assert(s1.len() == 2 && s1[0] == a && s1[1] == b);
    assert(s2.len() == 2 && s2[0] == b && s2[1] == a);

    // The invariant is symmetric in the two grains.
    assert(store_invariant(s2, g)) by {
        assert(in_bounds(a.position.current_x as int, a.position.current_y as int) && in_bounds(
            b.position.current_x as int,
            b.position.current_y as int,
        ) && grain_parked(a) && grain_parked(b));
        assert(!same_cell(s1[0].position, s1[1].position));
        assert(forall|i: int|
            0 <= i < s2.len() ==> in_bounds(
                (#[trigger] s2[i]).position.current_x as int,
                s2[i].position.current_y as int,
            ));
        assert(forall|i: int| 0 <= i < s2.len() ==> grain_parked(#[trigger] s2[i]));
        assert forall|i: int, j: int|
            0 <= i < s2.len() && 0 <= j < s2.len() && i != j implies !same_cell(
            (#[trigger] s2[i]).position,
            (#[trigger] s2[j]).position,
        ) by {
            assert(!same_cell(s1[0].position, s1[1].position));
        }
        assert forall|i: int|
            0 <= i < s2.len() && has_prev(#[trigger] s2[i]) implies grid_at(
            g,
            s2[i].position.current_x as int,
            s2[i].position.current_y as int,
        ) == Some(s2[i].kind) by {
            if i == 0 {
                assert(s1[1] == b && has_prev(s1[1]));
            } else {
                assert(s1[0] == a && has_prev(s1[0]));
            }
        }
        assert forall|x: int, y: int|
            in_bounds(x, y) && (#[trigger] grid_at(g, x, y)) is Some implies exists|i: int|
            0 <= i < s2.len() && at_cell(#[trigger] s2[i], x, y) && has_prev(s2[i]) && s2[i].kind
                == grid_at(g, x, y)->0 by {
            let i = choose|i: int|
                0 <= i < s1.len() && at_cell(#[trigger] s1[i], x, y) && has_prev(s1[i])
                    && s1[i].kind == grid_at(g, x, y)->0;
            if i == 0 {
                assert(at_cell(s2[1], x, y) && has_prev(s2[1]) && s2[1].kind == grid_at(
                    g,
                    x,
                    y,
                )->0);
            } else {
                assert(at_cell(s2[0], x, y) && has_prev(s2[0]) && s2[0].kind == grid_at(
                    g,
                    x,
                    y,
                )->0);
            }
        }
    }

    lemma_step_two(a, b, g, roll_a, roll_b);
    lemma_step_two(b, a, g, roll_b, roll_a);
    let fa = two_grain_outcome(a, b, g, roll_a);
    let fb = two_grain_outcome(b, a, g, roll_b);
    let step1 = step_store(s1, g, rolls1);
    let step2 = step_store(s2, g, rolls2);
    assert(step1 == seq![fa, fb] && step2 == seq![fb, fa]);

    lemma_frame_single_occupancy(s1, g, rolls1);
    lemma_frame_single_occupancy(s2, g, rolls2);
    let g1 = sync_store(g, step1);
    let g2 = sync_store(g, step2);
    let m1 = crate::frame::synced_store(step1);
    let m2 = crate::frame::synced_store(step2);
    assert(m1.len() == 2 && m2.len() == 2);
    assert(m1[0] == m2[1] && m1[1] == m2[0]);

    assert forall|x: int, y: int| in_bounds(x, y) implies grid_at(g1, x, y) == grid_at(
        g2,
        x,
        y,
    ) by {
        if at_cell(m1[0], x, y) {
            assert(grid_at(g1, x, y) == Some(m1[0].kind));
            assert(at_cell(m2[1], x, y));
            assert(grid_at(g2, x, y) == Some(m2[1].kind));
        } else if at_cell(m1[1], x, y) {
            assert(grid_at(g1, x, y) == Some(m1[1].kind));
            assert(at_cell(m2[0], x, y));
            assert(grid_at(g2, x, y) == Some(m2[0].kind));
        } else {
            if grid_at(g1, x, y) is Some {
                let i = choose|i: int|
                    0 <= i < m1.len() && at_cell(#[trigger] m1[i], x, y) && m1[i].kind == grid_at(
                        g1,
                        x,
                        y,
                    )->0;
                assert(i == 0 || i == 1);
                assert(false);
            }
            if grid_at(g2, x, y) is Some {
                let i = choose|i: int|
                    0 <= i < m2.len() && at_cell(#[trigger] m2[i], x, y) && m2[i].kind == grid_at(
                        g2,
                        x,
                        y,
                    )->0;
                assert(i == 0 || i == 1);
                assert(at_cell(m1[1 - i], x, y));
                assert(false);
            }
        }
    }

    assert(g1.len() == GAME_RESOLUTION_X * GAME_RESOLUTION_Y);
    assert(g2.len() == GAME_RESOLUTION_X * GAME_RESOLUTION_Y);
    assert forall|idx: int| 0 <= idx < g1.len() implies g1[idx] == g2[idx] by {
        let w = GAME_RESOLUTION_X as int;
        vstd::arithmetic::div_mod::lemma_fundamental_div_mod(idx, w);
        vstd::arithmetic::div_mod::lemma_mod_bound(idx, w);
        let xx = idx % w;
        let yy = idx / w;
        assert(0 <= yy < GAME_RESOLUTION_Y as int);
        assert(in_bounds(xx, yy));
        assert(grid_at(g1, xx, yy) == g1[idx]);
        assert(grid_at(g2, xx, yy) == g2[idx]);
    }
    assert(g1 =~= g2);
}

/// A grain of any age, run through any number of further steps: each entry
/// of `gs` is the snapshot of one step, each entry of `rolls` its draw.
pub open spec fn run_grain(gr: Grain, gs: Seq<Seq<Option<GrainType>>>, rolls: Seq<u32>) -> Grain
    decreases gs.len(),
{
    if gs.len() == 0 {
        gr
    } else {
        run_grain(grain_resolve(gr, gs[0], rolls[0]), gs.drop_first(), rolls.drop_first())
    }
}

/// A sand grain with an empty cell below falls by exactly one row in one
/// step, whatever the roll: the fall is deterministic.
pub proof fn lemma_sand_falls_when_unobstructed(
    p: GridPosition,
    lifetime: u32,
    g: Seq<Option<GrainType>>,
    roll: u32,
)
    requires
        interior_active(p.current_x as int, p.current_y as int),
        lifetime <= SAND_SETTLE_TIME,
        grid_at(g, p.current_x as int, p.current_y + 1) is None,
    ensures
        sand_resolve(p, lifetime, g, roll) == moved_position(p, 0, 1),
        sand_resolve(p, lifetime, g, roll).current_y == p.current_y + 1,
        sand_resolve(p, lifetime, g, roll).current_x == p.current_x,
{
}

/// A sand grain past the settle cutoff never moves again: one step leaves
/// it in place whatever the snapshot and the roll, and its age only grows,
/// so every later step leaves it in place too.
pub proof fn lemma_sand_settles_permanently(
    gr: Grain,
    gs: Seq<Seq<Option<GrainType>>>,
    rolls: Seq<u32>,
)
    requires
        gr.kind is Sand,
        gr.lifetime.0 >= SAND_SETTLE_TIME,
        gr.lifetime.0 + gs.len() <= u32::MAX,
    ensures
        run_grain(gr, gs, rolls).position == gr.position,
        run_grain(gr, gs, rolls).lifetime.0 == gr.lifetime.0 + gs.len(),
    decreases gs.len(),
{
    if gs.len() > 0 {
        let next = grain_resolve(gr, gs[0], rolls[0]);
        assert(next.position == gr.position);
        lemma_sand_settles_permanently(next, gs.drop_first(), rolls.drop_first());
    }
}

/// A water grain boxed in on both diagonals rests only transiently: the
/// boxed step changes nothing, and as soon as the cell below or the
/// diagonal on its own side is free again, it moves that very step.
pub proof fn lemma_water_rest_is_transient(
    p: GridPosition,
    direction: Direction,
    g1: Seq<Option<GrainType>>,
    g2: Seq<Option<GrainType>>,
)
    requires
        interior_active(p.current_x as int, p.current_y as int),
        grid_at(g1, p.current_x as int, p.current_y + 1) is Some,
        grid_at(g1, p.current_x - 1, p.current_y as int) is Some,
        grid_at(g1, p.current_x + 1, p.current_y as int) is Some,
        grid_at(g2, p.current_x as int, p.current_y + 1) is None || (direction is Right && grid_at(
            g2,
            p.current_x + 1,
            p.current_y as int,
        ) is None) || (direction is Left && grid_at(g2, p.current_x - 1, p.current_y as int) is None),
    ensures
        water_resolve(p, direction, g1) == p,
        !same_cell(water_resolve(water_resolve(p, direction, g1), direction, g2), p),
{
}

/// The blood flip cap: the commitment flag never clears, a grain whose
/// flag is set keeps its direction, and any flip happens in place, only
/// while the grain is young and uncommitted, and sets the flag — so the
/// direction reverses at most once.
pub proof fn lemma_blood_flip_cap(
    p: GridPosition,
    direction: Direction,
    commitment: bool,
    lifetime: u32,
    g: Seq<Option<GrainType>>,
)
    ensures
        commitment ==> blood_resolve(p, direction, commitment, lifetime, g).2 == true
            && blood_resolve(p, direction, commitment, lifetime, g).1 == direction,
        blood_resolve(p, direction, commitment, lifetime, g).1 != direction ==> {
            &&& !commitment
            &&& BLOOD_SPAWN_GRACE <= lifetime < BLOOD_SAFE_TIME
            &&& blood_resolve(p, direction, commitment, lifetime, g).2 == true
            &&& blood_resolve(p, direction, commitment, lifetime, g).0 == p
        },
{
}

} // verus!
