use grainfall::constants::{GAME_RESOLUTION_X, GAME_RESOLUTION_Y};
use grainfall::grain::GrainType;
use grainfall::grid::Grid;

#[test]
fn new_grid_is_empty() {
    let g = Grid::new();
    for y in 0..GAME_RESOLUTION_Y as i32 {
        for x in 0..GAME_RESOLUTION_X as i32 {
            assert_eq!(g.get(x, y), None);
        }
    }
}

#[test]
fn get_out_of_range_is_none() {
    let mut g = Grid::new();
    g.set(0, 0, GrainType::Sand);
    g.set(79, 59, GrainType::Bone);
    assert_eq!(g.get(-1, 0), None);
    assert_eq!(g.get(0, -1), None);
    assert_eq!(g.get(-2147483648, 5), None);
    assert_eq!(g.get(80, 0), None);
    assert_eq!(g.get(0, 60), None);
    assert_eq!(g.get(80, 60), None);
    assert_eq!(g.get(2147483647, 2147483647), None);
}

#[test]
fn set_out_of_range_leaves_grid_unchanged() {
    let mut g = Grid::new();
    g.set(10, 10, GrainType::Water);
    g.set(-1, 0, GrainType::Sand);
    g.set(0, -1, GrainType::Sand);
    g.set(80, 0, GrainType::Sand);
    g.set(0, 60, GrainType::Sand);
    g.set(-3, 61, GrainType::Sand);
    for y in 0..GAME_RESOLUTION_Y as i32 {
        for x in 0..GAME_RESOLUTION_X as i32 {
            if x == 10 && y == 10 {
                assert_eq!(g.get(x, y), Some(GrainType::Water));
            } else {
                assert_eq!(g.get(x, y), None);
            }
        }
    }
}

#[test]
fn set_then_get_round_trip() {
    let mut g = Grid::new();
    g.set(0, 0, GrainType::Sand);
    g.set(79, 0, GrainType::Water);
    g.set(0, 59, GrainType::Blood);
    g.set(79, 59, GrainType::Bone);
    assert_eq!(g.get(0, 0), Some(GrainType::Sand));
    assert_eq!(g.get(79, 0), Some(GrainType::Water));
    assert_eq!(g.get(0, 59), Some(GrainType::Blood));
    assert_eq!(g.get(79, 59), Some(GrainType::Bone));
}

#[test]
fn clear_empties_a_cell_and_tolerates_out_of_range() {
    let mut g = Grid::new();
    g.set(5, 5, GrainType::Sand);
    g.clear(5, 5);
    assert_eq!(g.get(5, 5), None);
    g.clear(-1, 0);
    g.clear(80, 60);
}
