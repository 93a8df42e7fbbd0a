use grainfall::blood::shade_blood;
use grainfall::bone::handle_bone_grain;
use grainfall::boundaries::is_within_boundaries;
use grainfall::frame::run_frame;
use grainfall::grain::{Direction, Grain, GrainType, Lifetime};
use grainfall::grid::{Grid, GridPosition};
use grainfall::tick::TickCounter;

fn parked(kind: GrainType, x: i32, y: i32, direction: Option<Direction>, lifetime: u32) -> Grain {
    Grain {
        kind,
        position: GridPosition { current_x: x, current_y: y, prev_x: Some(x), prev_y: Some(y) },
        lifetime: Lifetime(lifetime),
        direction,
        commitment: if kind == GrainType::Blood { Some(false) } else { None },
    }
}

fn tick() -> TickCounter {
    TickCounter { count: 0, tick_rate: 1 }
}

#[test]
fn boundary_band_excludes_margins_and_bottom_row() {
    let inside = GridPosition { current_x: 1, current_y: 0, prev_x: None, prev_y: None };
    let left_margin = GridPosition { current_x: 0, current_y: 10, prev_x: None, prev_y: None };
    let right_margin = GridPosition { current_x: 79, current_y: 10, prev_x: None, prev_y: None };
    let bottom_row = GridPosition { current_x: 40, current_y: 59, prev_x: None, prev_y: None };
    let last_active = GridPosition { current_x: 78, current_y: 58, prev_x: None, prev_y: None };
    assert!(is_within_boundaries(&inside, 80, 60));
    assert!(!is_within_boundaries(&left_margin, 80, 60));
    assert!(!is_within_boundaries(&right_margin, 80, 60));
    assert!(!is_within_boundaries(&bottom_row, 80, 60));
    assert!(is_within_boundaries(&last_active, 80, 60));
}

#[test]
fn sand_past_settle_cutoff_never_moves_again() {
    let mut grid = Grid::new();
    grid.set(10, 5, GrainType::Sand);
    grid.set(10, 6, GrainType::Bone);
    let mut grains = vec![parked(GrainType::Sand, 10, 5, None, 501)];
    let mut t = tick();
    for _ in 0..20 {
        run_frame(&mut grains, &mut grid, &mut t);
    }
    assert_eq!(grains[0].position.current_x, 10);
    assert_eq!(grains[0].position.current_y, 5);
    assert_eq!(grid.get(10, 5), Some(GrainType::Sand));
}

#[test]
fn water_rest_is_transient_not_sticky() {
    let mut grid = Grid::new();
    grid.set(10, 5, GrainType::Water);
    grid.set(10, 6, GrainType::Bone);
    grid.set(9, 5, GrainType::Bone);
    grid.set(11, 5, GrainType::Bone);
    let mut grains = vec![parked(GrainType::Water, 10, 5, Some(Direction::Right), 10)];
    let mut t = tick();
    // Boxed in on both diagonals: rests this tick.
    run_frame(&mut grains, &mut grid, &mut t);
    assert_eq!(grains[0].position.current_x, 10);
    assert_eq!(grains[0].position.current_y, 5);
    assert_eq!(grains[0].direction, Some(Direction::Right));
    // The diagonal on its own side frees up: it slides the very next tick.
    grid.clear(11, 5);
    run_frame(&mut grains, &mut grid, &mut t);
    assert_eq!(grains[0].position.current_x, 11);
    assert_eq!(grains[0].position.current_y, 5);
}

#[test]
fn blood_boxed_on_preferred_side_flips_exactly_once() {
    let mut grid = Grid::new();
    grid.set(10, 5, GrainType::Blood);
    grid.set(10, 6, GrainType::Bone);
    grid.set(9, 5, GrainType::Bone);
    let mut grains = vec![parked(GrainType::Blood, 10, 5, Some(Direction::Left), 10)];
    assert_eq!(grains[0].commitment, Some(false));
    let mut t = tick();
    // Boxed on its preferred side while young and uncommitted: it flips
    // in place and spends its one permitted flip.
    run_frame(&mut grains, &mut grid, &mut t);
    assert_eq!(grains[0].position.current_x, 10);
    assert_eq!(grains[0].position.current_y, 5);
    assert_eq!(grains[0].direction, Some(Direction::Right));
    assert_eq!(grains[0].commitment, Some(true));
}

#[test]
fn blood_with_spent_flip_keeps_its_direction() {
    let mut grid = Grid::new();
    grid.set(10, 5, GrainType::Blood);
    grid.set(10, 6, GrainType::Bone);
    grid.set(9, 5, GrainType::Bone);
    let mut grains = vec![Grain {
        commitment: Some(true),
        ..parked(GrainType::Blood, 10, 5, Some(Direction::Left), 10)
    }];
    let mut t = tick();
    for _ in 0..5 {
        run_frame(&mut grains, &mut grid, &mut t);
    }
    // Still boxed on its preferred side, but the flip is spent: it keeps
    // its committed direction and stays.
    assert_eq!(grains[0].direction, Some(Direction::Left));
    assert_eq!(grains[0].commitment, Some(true));
    assert_eq!(grains[0].position.current_x, 10);
    assert_eq!(grains[0].position.current_y, 5);
}

#[test]
fn blood_skips_movement_during_spawn_grace() {
    let mut grid = Grid::new();
    grid.set(10, 5, GrainType::Blood);
    grid.set(10, 6, GrainType::Bone);
    grid.set(9, 5, GrainType::Bone);
    let mut grains = vec![parked(GrainType::Blood, 10, 5, Some(Direction::Left), 0)];
    let mut t = tick();
    // Ages 1 through 4 are inside the grace period: no flip, no move.
    for _ in 0..4 {
        run_frame(&mut grains, &mut grid, &mut t);
        assert_eq!(grains[0].direction, Some(Direction::Left));
        assert_eq!(grains[0].commitment, Some(false));
        assert_eq!(grains[0].position.current_x, 10);
        assert_eq!(grains[0].position.current_y, 5);
    }
    // At age 5 the rule applies again: boxed on the preferred side, flip.
    run_frame(&mut grains, &mut grid, &mut t);
    assert_eq!(grains[0].direction, Some(Direction::Right));
    assert_eq!(grains[0].commitment, Some(true));
}

#[test]
fn blood_hovers_through_the_grace_period_then_falls() {
    let mut grid = Grid::new();
    grid.set(10, 5, GrainType::Blood);
    let mut grains = vec![parked(GrainType::Blood, 10, 5, Some(Direction::Left), 0)];
    let mut t = tick();
    // Movement evaluation is skipped entirely while young: it does not
    // even fall, despite the empty cell below.
    for _ in 0..4 {
        run_frame(&mut grains, &mut grid, &mut t);
        assert_eq!(grains[0].position.current_y, 5);
    }
    run_frame(&mut grains, &mut grid, &mut t);
    assert_eq!(grains[0].position.current_y, 6);
}

#[test]
fn bone_observes_blood_directly_above() {
    let mut grid = Grid::new();
    grid.set(10, 4, GrainType::Blood);
    let on_spot = GridPosition { current_x: 10, current_y: 5, prev_x: Some(10), prev_y: Some(5) };
    assert!(handle_bone_grain(&on_spot, &grid));
    grid.clear(10, 4);
    assert!(!handle_bone_grain(&on_spot, &grid));
    grid.set(10, 4, GrainType::Sand);
    assert!(!handle_bone_grain(&on_spot, &grid));
    // Outside the interior band the hook observes nothing.
    grid.set(0, 4, GrainType::Blood);
    let on_margin = GridPosition { current_x: 0, current_y: 5, prev_x: Some(0), prev_y: Some(5) };
    assert!(!handle_bone_grain(&on_margin, &grid));
}

#[test]
fn shade_blood_tracks_the_cell_above() {
    let mut grid = Grid::new();
    let pos = GridPosition { current_x: 10, current_y: 5, prev_x: Some(10), prev_y: Some(5) };
    assert_eq!(shade_blood(&GrainType::Blood, &pos, &grid), Some(true));
    grid.set(10, 4, GrainType::Sand);
    assert_eq!(shade_blood(&GrainType::Blood, &pos, &grid), Some(false));
    assert_eq!(shade_blood(&GrainType::Sand, &pos, &grid), None);
    assert_eq!(shade_blood(&GrainType::Bone, &pos, &grid), None);
}
