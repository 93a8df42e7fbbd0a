//! The grain record: kind, grid position, age and sliding state.

use vstd::prelude::*;

use crate::blood::{blood_resolve, handle_blood_grain};
use crate::bone::handle_bone_grain;
use crate::boundaries::in_bounds;
use crate::constants::ROLL_BOUND;
use crate::grid::{Grid, GridPosition};
use crate::rng::random_below;
use crate::sand::{handle_sand_grain, sand_resolve};
use crate::tick::TickCounter;
use crate::water::{handle_water_grain, water_resolve};

verus! {

/// The closed set of grain kinds. Which movement rule applies is decided by
/// this tag alone.
#[derive(Clone, Copy, PartialEq, Eq, Structural, Debug)]
pub enum GrainType {
    /// Probabilistic settling: falls, rarely slides, settles permanently.
    Sand,
    /// Deterministic sliding: falls, slides in its stored direction, and
    /// rests only while boxed in.
    Water,
    /// Water's rule plus a spawn grace period and a one-shot direction flip.
    Blood,
    /// Immobile: occupies a cell and only observes the cell above.
    Bone,
}

/// The lateral direction a sliding grain currently prefers.
#[derive(Clone, Copy, PartialEq, Eq, Structural, Debug)]
pub enum Direction {
    /// Slides towards increasing `x`.
    Right,
    /// Slides towards decreasing `x`.
    Left,
}

/// Steps survived since spawn; incremented once per simulation step and
/// never reset.
#[derive(Clone, Copy, PartialEq, Eq, Structural, Debug)]
pub struct Lifetime(pub u32);

/// One live grain. `kind` is immutable after spawn; `position` is mutated
/// only during movement resolution and applied to the grid by the sync pass.
#[derive(Clone, Copy)]
pub struct Grain {
    /// Which movement rule applies. Never changes after spawn.
    pub kind: GrainType,
    /// Current cell and the cell occupied when the grid was last synced.
    pub position: GridPosition,
    /// Steps survived since spawn.
    pub lifetime: Lifetime,
    /// Present exactly for the kinds with lateral sliding (water, blood).
    pub direction: Option<Direction>,
    /// Present exactly for blood: whether the grain has already used its
    /// one permitted direction flip.
    pub commitment: Option<bool>,
}

/// Which optional fields a grain carries is fixed by its kind, and the two
/// components of the previous position are recorded together or not at all.
pub open spec fn grain_wf(g: Grain) -> bool {
    &&& (g.direction is Some <==> (g.kind is Water || g.kind is Blood))
    &&& (g.commitment is Some <==> g.kind is Blood)
    &&& (g.position.prev_x is Some <==> g.position.prev_y is Some)
}

/// Two positions name the same cell.
pub open spec fn same_cell(a: GridPosition, b: GridPosition) -> bool {
    a.current_x == b.current_x && a.current_y == b.current_y
}

/// One grain's state after one simulation step against the pre-step
/// snapshot `g`, consuming the uniform roll `roll` (only sand reads it).
/// The lifetime is incremented first; the kind's rule sees the new value.
pub open spec fn grain_resolve(gr: Grain, g: Seq<Option<GrainType>>, roll: u32) -> Grain {
    let lt = (gr.lifetime.0 + 1) as u32;
    match gr.kind {
        GrainType::Sand => Grain {
            lifetime: Lifetime(lt),
            position: sand_resolve(gr.position, lt, g, roll),
            ..gr
        },
        GrainType::Water => Grain {
            lifetime: Lifetime(lt),
            position: water_resolve(gr.position, gr.direction->0, g),
            ..gr
        },
        GrainType::Blood => {
            let r = blood_resolve(gr.position, gr.direction->0, gr.commitment->0, lt, g);
            Grain {
                lifetime: Lifetime(lt),
                position: r.0,
                direction: Some(r.1),
                commitment: Some(r.2),
                ..gr
            }
        },
        GrainType::Bone => Grain { lifetime: Lifetime(lt), ..gr },
    }
}

/// The whole store after the resolution pass: each grain resolved
/// independently against the same snapshot, so the outcome is a pointwise
/// map and cannot depend on iteration order.
pub open spec fn resolved_store(
    store: Seq<Grain>,
    g: Seq<Option<GrainType>>,
    rolls: Seq<u32>,
) -> Seq<Grain> {
    Seq::new(store.len(), |i: int| grain_resolve(store[i], g, rolls[i]))
}

/// A well-formed supply of rolls for one step over `n` grains.
pub open spec fn rolls_wf(rolls: Seq<u32>, n: nat) -> bool {
    rolls.len() == n && (forall|i: int| 0 <= i < n ==> rolls[i] < ROLL_BOUND)
}

/// Whether the resolved grain at `i` loses its move under the
/// deterministic tie-break: a move is committed only if its destination
/// differs from every other grain's pre-step cell and from the committed
/// cell of every earlier-indexed grain; `cur` holds grains below `i`
/// already arbitrated and grains from `i` up still as resolved.
pub open spec fn arb_conflict(olds: Seq<Grain>, cur: Seq<Grain>, i: int) -> bool {
    ||| exists|j: int|
        0 <= j < olds.len() && j != i && same_cell(#[trigger] olds[j].position, cur[i].position)
    ||| exists|j: int| 0 <= j < i && same_cell(#[trigger] cur[j].position, cur[i].position)
}

/// A grain whose move lost the tie-break is put back where it was, as if
/// it had not moved this step.
pub open spec fn arb_revert(old_gr: Grain, new_gr: Grain) -> Grain {
    Grain { position: old_gr.position, ..new_gr }
}

/// The arbitration pass over the first `n` grains, in index order: the
/// deterministic tie-break for two moves that computed the same
/// destination from the same snapshot.
pub open spec fn arb_upto(olds: Seq<Grain>, cur: Seq<Grain>, n: nat) -> Seq<Grain>
    decreases n,
{
    if n == 0 {
        cur
    } else {
        let i = n - 1;
        let prev = arb_upto(olds, cur, (n - 1) as nat);
        if !same_cell(olds[i].position, prev[i].position) && arb_conflict(olds, prev, i) {
            prev.update(i, arb_revert(olds[i], prev[i]))
        } else {
            prev
        }
    }
}

/// The whole store after one simulation step: resolution against the
/// snapshot, then arbitration of colliding destinations.
pub open spec fn step_store(
    store: Seq<Grain>,
    g: Seq<Option<GrainType>>,
    rolls: Seq<u32>,
) -> Seq<Grain> {
    arb_upto(store, resolved_store(store, g, rolls), store.len())
}

/// Arbitration never adds or removes grains.
pub proof fn lemma_arb_upto_len(olds: Seq<Grain>, cur: Seq<Grain>, n: nat)
    requires
        n <= cur.len(),
    ensures
        arb_upto(olds, cur, n).len() == cur.len(),
    decreases n,
{
    if n > 0 {
        lemma_arb_upto_len(olds, cur, (n - 1) as nat);
    }
}

/// A step never adds or removes grains.
pub proof fn lemma_step_store_len(store: Seq<Grain>, g: Seq<Option<GrainType>>, rolls: Seq<u32>)
    ensures
        step_store(store, g, rolls).len() == store.len(),
{
    lemma_arb_upto_len(store, resolved_store(store, g, rolls), store.len());
}

/// Every grain in the store is well formed and young enough for its age
/// counter to advance.
pub open spec fn store_wf(store: Seq<Grain>) -> bool {
    forall|i: int|
        0 <= i < store.len() ==> #[trigger] grain_wf(store[i]) && store[i].lifetime.0 < u32::MAX
}

/// One poll of the automaton. The clock gate decides whether this poll is
/// a simulation step; on a step, every live grain's lifetime advances and
/// its kind's rule is applied against the snapshot in `grid_data`, which
/// this pass only reads — new positions reach the grid only at the next
/// sync. Colliding destinations are then arbitrated in index order.
pub fn update_grain(grains: &mut Vec<Grain>, grid_data: &Grid, tick_counter: &mut TickCounter)
    requires
        grid_data.wf(),
        old(tick_counter).count < u32::MAX,
        store_wf(old(grains)@),
    ensures
        final(tick_counter).tick_rate == old(tick_counter).tick_rate,
        old(tick_counter).count + 1 < old(tick_counter).tick_rate ==> final(tick_counter).count
            == old(tick_counter).count + 1 && final(grains)@ == old(grains)@,
        old(tick_counter).count + 1 >= old(tick_counter).tick_rate ==> final(tick_counter).count
            == 0 && (exists|rolls: Seq<u32>|
            rolls_wf(rolls, old(grains)@.len()) && final(grains)@ == #[trigger] step_store(
                old(grains)@,
                grid_data@,
                rolls,
            )),
{
    tick_counter.count = tick_counter.count + 1;
    if tick_counter.count >= tick_counter.tick_rate {
        tick_counter.count = 0;
        let ghost orig = grains@;
        let n = grains.len();
        let ghost mut rolls: Seq<u32> = Seq::empty();

        // Remember every grain's pre-step cell for the arbitration pass.
        let mut olds: Vec<GridPosition> = Vec::new();
        let mut i: usize = 0;
        while i < n
            invariant
                i <= n,
                grains@ == orig,
                n == orig.len(),
                olds@.len() == i,
                forall|k: int| 0 <= k < i ==> olds@[k] == orig[k].position,
            decreases n - i,
        {
            let p = grains[i].position;
            olds.push(p);
            i = i + 1;
        }

        // Resolution pass: each grain against the same snapshot.
        let mut i: usize = 0;
        while i < n
            invariant
                i <= n,
                n == orig.len(),
                grains@.len() == n,
                grid_data.wf(),
                store_wf(orig),
                rolls.len() == i,
                forall|k: int| 0 <= k < i ==> rolls[k] < ROLL_BOUND,
                forall|k: int|
                    0 <= k < i ==> grains@[k] == grain_resolve(orig[k], grid_data@, rolls[k]),
                forall|k: int| i <= k < n ==> grains@[k] == orig[k],
            decreases n - i,
        {
            let g0 = grains[i];
            assert(g0 == orig[i as int]);
            assert(grain_wf(orig[i as int]));
            let lt = g0.lifetime.0 + 1;
            let mut gp = g0.position;
            let mut roll: u32 = 0;
            match g0.kind {
                GrainType::Sand => {
                    roll = random_below(ROLL_BOUND);
                    handle_sand_grain(&mut gp, grid_data, lt, roll);
                    grains.set(i, Grain { position: gp, lifetime: Lifetime(lt), ..g0 });
                },
                GrainType::Water => {
                    let dir = g0.direction.unwrap();
                    handle_water_grain(&mut gp, grid_data, &dir);
                    grains.set(i, Grain { position: gp, lifetime: Lifetime(lt), ..g0 });
                },
                GrainType::Blood => {
                    let mut dir = g0.direction.unwrap();
                    let mut com = g0.commitment.unwrap();
                    handle_blood_grain(&mut gp, grid_data, &mut dir, &mut com, lt);
                    grains.set(
                        i,
                        Grain {
                            position: gp,
                            lifetime: Lifetime(lt),
                            direction: Some(dir),
                            commitment: Some(com),
                            ..g0
                        },
                    );
                },
                GrainType::Bone => {
                    let _ = handle_bone_grain(&gp, grid_data);
                    grains.set(i, Grain { lifetime: Lifetime(lt), ..g0 });
                },
            }
            proof {
                rolls = rolls.push(roll);
            }
            assert(grains@[i as int] == grain_resolve(orig[i as int], grid_data@, roll));
            i = i + 1;
        }
        let ghost resolved = resolved_store(orig, grid_data@, rolls);
        assert(grains@ =~= resolved);

        // Arbitration pass: in index order, a move whose destination is
        // also claimed elsewhere is taken back.
        let mut i: usize = 0;
        while i < n
            invariant
                i <= n,
                n == orig.len(),
                grains@.len() == n,
                olds@.len() == n,
                forall|k: int| 0 <= k < n ==> olds@[k] == orig[k].position,
                grains@ == arb_upto(orig, resolved, i as nat),
            decreases n - i,
        {
            let gi = grains[i];
            let op = olds[i];
            let moved = gi.position.current_x != op.current_x || gi.position.current_y
                != op.current_y;
            if moved {
                let ghost others = grains@;
                let mut conflict = false;
                let mut j: usize = 0;
                while j < n
                    invariant
                        j <= n,
                        n == orig.len(),
                        olds@.len() == n,
                        forall|k: int| 0 <= k < n ==> olds@[k] == orig[k].position,
                        i < n,
                        conflict == exists|k: int|
                            0 <= k < j && k != i && same_cell(#[trigger] orig[k].position, gi.position),
                    decreases n - j,
                {
                    if j != i {
                        let oj = olds[j];
                        if oj.current_x == gi.position.current_x && oj.current_y
                            == gi.position.current_y {
                            conflict = true;
                        }
                    }
                    j = j + 1;
                }
                let mut j: usize = 0;
                while j < i
                    invariant
                        j <= i,
                        i < n,
                        n == orig.len(),
                        grains@.len() == n,
                        grains@ == others,
                        gi == grains@[i as int],
                        conflict == ((exists|k: int|
                            0 <= k < n && k != i && same_cell(#[trigger] orig[k].position, gi.position))
                            || (exists|k: int|
                            0 <= k < j && same_cell(#[trigger] others[k].position, gi.position))),
                    decreases i - j,
                {
                    let gj = grains[j];
                    if gj.position.current_x == gi.position.current_x && gj.position.current_y
                        == gi.position.current_y {
                        conflict = true;
                    }
                    j = j + 1;
                }
                proof {
                    let cur = arb_upto(orig, resolved, i as nat);
                    assert(cur == others);
                    assert(cur[i as int] == gi);
                    if conflict {
                        if exists|k: int|
                            0 <= k < n && k != i && same_cell(#[trigger] orig[k].position, gi.position) {
                            let k = choose|k: int|
                                0 <= k < n && k != i && same_cell(
                                    #[trigger] orig[k].position,
                                    gi.position,
                                );
                            assert(0 <= k < orig.len() && k != i && same_cell(
                                orig[k].position,
                                cur[i as int].position,
                            ));
                        } else {
                            let k = choose|k: int|
                                0 <= k < i && same_cell(#[trigger] others[k].position, gi.position);
                            assert(0 <= k < i && same_cell(cur[k].position, cur[i as int].position));
                        }
                        assert(arb_conflict(orig, cur, i as int));
                    } else {
                        assert forall|j: int|
                            !(0 <= j < orig.len() && j != i && same_cell(
                                #[trigger] orig[j].position,
                                cur[i as int].position,
                            )) by {
                            if 0 <= j < orig.len() && j != i && same_cell(
                                orig[j].position,
                                cur[i as int].position,
                            ) {
                                assert(0 <= j < n && j != i && same_cell(
                                    orig[j].position,
                                    gi.position,
                                ));
                                assert(false);
                            }
                        }
                        assert forall|j: int|
                            !(0 <= j < i && same_cell(
                                #[trigger] cur[j].position,
                                cur[i as int].position,
                            )) by {
                            if 0 <= j < i && same_cell(cur[j].position, cur[i as int].position) {
                                assert(0 <= j < i && same_cell(others[j].position, gi.position));
                                assert(false);
                            }
                        }
                        assert(!arb_conflict(orig, cur, i as int));
                    }
                    assert(conflict == arb_conflict(orig, cur, i as int));
                }
                if conflict {
                    grains.set(i, Grain { position: op, ..gi });
                }
            }
            proof {
                let prev = arb_upto(orig, resolved, i as nat);
                let next = arb_upto(orig, resolved, (i + 1) as nat);
                if !same_cell(orig[i as int].position, prev[i as int].position) && arb_conflict(
                    orig,
                    prev,
                    i as int,
                ) {
                    assert(next == prev.update(i as int, arb_revert(orig[i as int], prev[i as int])));
                    assert(grains@ =~= next);
                } else {
                    assert(next == prev);
                    assert(grains@ =~= next);
                }
            }
            i = i + 1;
        }
        proof {
            assert(grains@ == step_store(orig, grid_data@, rolls));
            assert(rolls_wf(rolls, orig.len()));
        }
    }
}

/// Appends a freshly spawned grain: at the given storage-valid cell, age
/// zero, nothing to clear at the next sync, and — for the sliding kinds —
/// a direction drawn uniformly at random, with blood's flip still unused.
pub fn add_grain(grains: &mut Vec<Grain>, kind: GrainType, x: i32, y: i32)
    requires
        in_bounds(x as int, y as int),
    ensures
        final(grains)@.len() == old(grains)@.len() + 1,
        forall|i: int| 0 <= i < old(grains)@.len() ==> final(grains)@[i] == old(grains)@[i],
        final(grains)@.last().kind == kind,
        final(grains)@.last().position == (GridPosition {
            current_x: x,
            current_y: y,
            prev_x: None,
            prev_y: None,
        }),
        final(grains)@.last().lifetime.0 == 0,
        grain_wf(final(grains)@.last()),
        kind is Blood ==> final(grains)@.last().commitment == Some(false),
{
    let direction = match kind {
        GrainType::Water | GrainType::Blood => {
            // Pick a random direction to slide toward.
            if random_below(2) == 0 {
                Some(Direction::Left)
            } else {
                Some(Direction::Right)
            }
        },
        _ => None,
    };
    let commitment = match kind {
        GrainType::Blood => Some(false),
        _ => None,
    };
    grains.push(
        Grain {
            kind,
            position: GridPosition { current_x: x, current_y: y, prev_x: None, prev_y: None },
            lifetime: Lifetime(0),
            direction,
            commitment,
        },
    );
}

} // verus!
