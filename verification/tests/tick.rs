use game_of_life::Cell;
use game_of_life::Universe;

fn universe_with(width: u32, height: u32, alive: &[(u32, u32)]) -> Universe {
    let mut cells = vec![Cell::Dead; (width * height) as usize];
    for &(row, column) in alive {
        cells[(row * width + column) as usize] = Cell::Alive;
    }
    Universe::try_new(width, height, cells).unwrap()
}

fn alive_positions(universe: &Universe) -> Vec<(u32, u32)> {
    let width = universe.width();
    let mut positions = Vec::new();
    for (index, &cell) in universe.cells().iter().enumerate() {
        if cell == Cell::Alive {
            positions.push((index as u32 / width, index as u32 % width));
        }
    }
    positions
}

#[test]
fn blinker_oscillates_with_period_two() {
    let mut universe = universe_with(5, 5, &[(2, 1), (2, 2), (2, 3)]);
    universe.tick();
    assert_eq!(alive_positions(&universe), vec![(1, 2), (2, 2), (3, 2)]);
    universe.tick();
    assert_eq!(alive_positions(&universe), vec![(2, 1), (2, 2), (2, 3)]);
}

#[test]
fn block_is_a_still_life_on_the_smallest_torus() {
    let mut universe = universe_with(3, 3, &[(0, 0), (0, 1), (1, 0), (1, 1)]);
    let seed = universe.cells().clone();
    for _ in 0..4 {
        universe.tick();
        assert_eq!(universe.cells(), &seed);
    }
}

#[test]
fn block_is_a_still_life_on_a_larger_torus() {
    let mut universe = universe_with(6, 5, &[(1, 2), (1, 3), (2, 2), (2, 3)]);
    let seed = universe.cells().clone();
    for _ in 0..10 {
        universe.tick();
        assert_eq!(universe.cells(), &seed);
    }
}

#[test]
fn identically_seeded_universes_stay_identical() {
    let seed: &[(u32, u32)] = &[(0, 1), (1, 2), (2, 0), (2, 1), (2, 2)];
    let mut first = universe_with(6, 6, seed);
    let mut second = universe_with(6, 6, seed);
    for _ in 0..8 {
        first.tick();
        second.tick();
        assert_eq!(first.cells(), second.cells());
    }
}

#[test]
fn isolated_cell_dies_of_underpopulation() {
    let mut universe = universe_with(3, 3, &[(1, 1)]);
    assert_eq!(universe.live_neighbor_count(1, 1), 0);
    universe.tick();
    assert!(alive_positions(&universe).is_empty());
}

#[test]
fn dead_cell_with_three_neighbors_is_born() {
    let mut universe = universe_with(5, 5, &[(1, 1), (1, 3), (3, 2)]);
    assert_eq!(universe.live_neighbor_count(2, 2), 3);
    universe.tick();
    assert_eq!(universe.cells()[(2 * 5 + 2) as usize], Cell::Alive);
}

#[test]
fn live_cell_with_four_neighbors_dies_of_overpopulation() {
    let mut universe = universe_with(5, 5, &[(2, 2), (1, 1), (1, 3), (3, 1), (3, 3)]);
    assert_eq!(universe.live_neighbor_count(2, 2), 4);
    universe.tick();
    assert_eq!(universe.cells()[(2 * 5 + 2) as usize], Cell::Dead);
}

#[test]
fn live_cell_with_two_neighbors_survives() {
    let mut universe = universe_with(5, 5, &[(2, 1), (2, 2), (2, 3)]);
    assert_eq!(universe.live_neighbor_count(2, 2), 2);
    universe.tick();
    assert_eq!(universe.cells()[(2 * 5 + 2) as usize], Cell::Alive);
}

#[test]
fn glider_returns_translated_after_four_generations() {
    // The glider moves one cell down and one cell right every four
    // generations; on a torus it keeps doing so forever.
    let mut universe = universe_with(8, 8, &[(0, 1), (1, 2), (2, 0), (2, 1), (2, 2)]);
    for _ in 0..4 {
        universe.tick();
    }
    assert_eq!(
        alive_positions(&universe),
        vec![(1, 2), (2, 3), (3, 1), (3, 2), (3, 3)]
    );
}
