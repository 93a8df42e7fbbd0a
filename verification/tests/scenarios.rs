use grainfall::frame::run_frame;
use grainfall::grain::{add_grain, Direction, Grain, GrainType, Lifetime};
use grainfall::grid::{update_grid_data, Grid, GridPosition};
use grainfall::tick::TickCounter;

fn fresh(kind: GrainType, x: i32, y: i32, direction: Option<Direction>) -> Grain {
    Grain {
        kind,
        position: GridPosition { current_x: x, current_y: y, prev_x: None, prev_y: None },
        lifetime: Lifetime(0),
        direction,
        commitment: if kind == GrainType::Blood { Some(false) } else { None },
    }
}

fn tick() -> TickCounter {
    TickCounter { count: 0, tick_rate: 1 }
}

#[test]
fn sand_falls_one_row_per_step_deterministically() {
    for _ in 0..50 {
        let mut grid = Grid::new();
        let mut grains = Vec::new();
        add_grain(&mut grains, GrainType::Sand, 40, 5);
        let mut t = tick();
        run_frame(&mut grains, &mut grid, &mut t);
        assert_eq!(grains[0].position.current_x, 40);
        assert_eq!(grains[0].position.current_y, 6);
    }
}

#[test]
fn sand_spawned_at_top_rests_on_the_floor_row() {
    let mut grid = Grid::new();
    let mut grains = Vec::new();
    add_grain(&mut grains, GrainType::Sand, 40, 0);
    let mut t = tick();
    for _ in 0..60 {
        run_frame(&mut grains, &mut grid, &mut t);
    }
    assert_eq!(grains[0].position.current_x, 40);
    assert_eq!(grains[0].position.current_y, 59);
    assert_eq!(grid.get(40, 59), Some(GrainType::Sand));
    // Further polls change nothing: the bottom row is outside the band the
    // resolver evaluates.
    for _ in 0..10 {
        run_frame(&mut grains, &mut grid, &mut t);
    }
    assert_eq!(grains[0].position.current_y, 59);
}

#[test]
fn grid_reports_each_grain_exactly_once_after_sync() {
    let mut grid = Grid::new();
    let mut grains = vec![
        fresh(GrainType::Sand, 20, 0, None),
        fresh(GrainType::Water, 30, 0, Some(Direction::Left)),
        fresh(GrainType::Bone, 40, 30, None),
    ];
    let mut t = tick();
    for _ in 0..100 {
        run_frame(&mut grains, &mut grid, &mut t);
    }
    for gr in &grains {
        assert_eq!(grid.get(gr.position.current_x, gr.position.current_y), Some(gr.kind));
    }
    let mut occupied = 0;
    for y in 0..60 {
        for x in 0..80 {
            if grid.get(x, y).is_some() {
                occupied += 1;
            }
        }
    }
    assert_eq!(occupied, grains.len());
    for i in 0..grains.len() {
        for j in 0..grains.len() {
            if i != j {
                let a = &grains[i].position;
                let b = &grains[j].position;
                assert!(a.current_x != b.current_x || a.current_y != b.current_y);
            }
        }
    }
}

#[test]
fn resolving_two_grains_in_either_order_gives_the_same_grid() {
    // Two deterministic grains in one column; run the same polls with the
    // store in both orders and compare the full grids.
    let a = fresh(GrainType::Water, 10, 3, Some(Direction::Right));
    let b = fresh(GrainType::Water, 10, 6, Some(Direction::Left));

    let mut grid_ab = Grid::new();
    let mut grains_ab = vec![a, b];
    let mut t_ab = tick();

    let mut grid_ba = Grid::new();
    let mut grains_ba = vec![b, a];
    let mut t_ba = tick();

    for _ in 0..30 {
        run_frame(&mut grains_ab, &mut grid_ab, &mut t_ab);
        run_frame(&mut grains_ba, &mut grid_ba, &mut t_ba);
    }
    for y in 0..60 {
        for x in 0..80 {
            assert_eq!(grid_ab.get(x, y), grid_ba.get(x, y));
        }
    }
}

#[test]
fn clock_gate_steps_once_every_tick_rate_polls() {
    let mut grid = Grid::new();
    let mut grains = vec![fresh(GrainType::Sand, 40, 5, None)];
    let mut t = TickCounter { count: 0, tick_rate: 3 };
    run_frame(&mut grains, &mut grid, &mut t);
    assert_eq!(t.count, 1);
    assert_eq!(grains[0].position.current_y, 5);
    run_frame(&mut grains, &mut grid, &mut t);
    assert_eq!(t.count, 2);
    assert_eq!(grains[0].position.current_y, 5);
    run_frame(&mut grains, &mut grid, &mut t);
    assert_eq!(t.count, 0);
    assert_eq!(grains[0].position.current_y, 6);
}

#[test]
fn spawned_grains_carry_the_fields_of_their_kind() {
    let mut grains = Vec::new();
    add_grain(&mut grains, GrainType::Sand, 10, 10);
    add_grain(&mut grains, GrainType::Water, 11, 10);
    add_grain(&mut grains, GrainType::Blood, 12, 10);
    add_grain(&mut grains, GrainType::Bone, 13, 10);
    assert_eq!(grains.len(), 4);
    for gr in &grains {
        assert_eq!(gr.lifetime.0, 0);
        assert_eq!(gr.position.prev_x, None);
        assert_eq!(gr.position.prev_y, None);
    }
    assert_eq!(grains[0].kind, GrainType::Sand);
    assert!(grains[0].direction.is_none());
    assert!(grains[0].commitment.is_none());
    assert!(grains[1].direction.is_some());
    assert!(grains[1].commitment.is_none());
    assert!(grains[2].direction.is_some());
    assert_eq!(grains[2].commitment, Some(false));
    assert!(grains[3].direction.is_none());
    assert!(grains[3].commitment.is_none());
}

#[test]
fn sync_clears_every_old_cell_before_writing_any_new_one() {
    // Grain a moved into the very cell grain b vacated this step, and a is
    // stored before b: b's stale clear must not erase a's write, so after
    // the sync the contested cell reads a's kind.
    let mut grid = Grid::new();
    grid.set(10, 4, GrainType::Sand);
    grid.set(10, 5, GrainType::Water);
    let a = Grain {
        kind: GrainType::Sand,
        position: GridPosition { current_x: 10, current_y: 5, prev_x: Some(10), prev_y: Some(4) },
        lifetime: Lifetime(3),
        direction: None,
        commitment: None,
    };
    let b = Grain {
        kind: GrainType::Water,
        position: GridPosition { current_x: 10, current_y: 6, prev_x: Some(10), prev_y: Some(5) },
        lifetime: Lifetime(3),
        direction: Some(Direction::Left),
        commitment: None,
    };
    let mut grains = vec![a, b];
    update_grid_data(&mut grains, &mut grid);
    assert_eq!(grid.get(10, 4), None);
    assert_eq!(grid.get(10, 5), Some(GrainType::Sand));
    assert_eq!(grid.get(10, 6), Some(GrainType::Water));
    for gr in &grains {
        assert_eq!(gr.position.prev_x, Some(gr.position.current_x));
        assert_eq!(gr.position.prev_y, Some(gr.position.current_y));
    }
}

#[test]
fn two_movers_never_end_up_in_one_cell() {
    // Two sand grains one cell apart on a shelf over a pit: whatever each
    // decides, the tie-break keeps them on distinct cells, and the grid
    // reports both.
    let mut grid = Grid::new();
    for x in 8..14 {
        grid.set(x, 7, GrainType::Bone);
    }
    grid.set(10, 6, GrainType::Bone);
    grid.set(12, 6, GrainType::Bone);
    let mut grains = vec![
        fresh(GrainType::Sand, 10, 5, None),
        fresh(GrainType::Sand, 12, 5, None),
    ];
    let mut t = tick();
    for _ in 0..50 {
        run_frame(&mut grains, &mut grid, &mut t);
        let a = &grains[0].position;
        let b = &grains[1].position;
        assert!(a.current_x != b.current_x || a.current_y != b.current_y);
        assert_eq!(grid.get(a.current_x, a.current_y), Some(GrainType::Sand));
        assert_eq!(grid.get(b.current_x, b.current_y), Some(GrainType::Sand));
    }
}
