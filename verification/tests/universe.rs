use game_of_life::Cell;
use game_of_life::Universe;

fn dead_grid(width: u32, height: u32) -> Vec<Cell> {
    vec![Cell::Dead; (width * height) as usize]
}

fn universe_with(width: u32, height: u32, alive: &[(u32, u32)]) -> Universe {
    let mut cells = dead_grid(width, height);
    for &(row, column) in alive {
        cells[(row * width + column) as usize] = Cell::Alive;
    }
    Universe::try_new(width, height, cells).unwrap()
}

#[test]
fn construction_keeps_dimensions_and_cells() {
    let universe = universe_with(4, 3, &[(0, 0), (2, 3)]);
    assert_eq!(universe.width(), 4);
    assert_eq!(universe.height(), 3);
    let cells = universe.cells();
    assert_eq!(cells.len(), 12);
    assert_eq!(cells[0], Cell::Alive);
    assert_eq!(cells[11], Cell::Alive);
    assert_eq!(cells[1], Cell::Dead);
}

#[test]
fn dimension_invariant_holds_before_and_after_ticks() {
    let mut universe = universe_with(5, 4, &[(1, 1), (1, 2), (1, 3)]);
    assert_eq!(
        universe.cells().len(),
        (universe.width() * universe.height()) as usize
    );
    for _ in 0..5 {
        universe.tick();
        assert_eq!(universe.width(), 5);
        assert_eq!(universe.height(), 4);
        assert_eq!(
            universe.cells().len(),
            (universe.width() * universe.height()) as usize
        );
    }
}

#[test]
fn try_new_refuses_zero_width() {
    assert!(Universe::try_new(0, 3, vec![]).is_none());
}

#[test]
fn try_new_refuses_zero_height() {
    assert!(Universe::try_new(3, 0, vec![]).is_none());
}

#[test]
fn try_new_refuses_mismatched_buffer() {
    assert!(Universe::try_new(3, 3, vec![Cell::Dead; 8]).is_none());
    assert!(Universe::try_new(3, 3, vec![Cell::Dead; 10]).is_none());
}

#[test]
fn try_new_accepts_matching_buffer() {
    let universe = Universe::try_new(3, 3, vec![Cell::Dead; 9]).unwrap();
    assert_eq!(universe.width(), 3);
    assert_eq!(universe.height(), 3);
    assert_eq!(universe.cells().len(), 9);
}

#[test]
fn new_builds_the_same_grid_as_try_new() {
    let built = Universe::new(2, 2, vec![Cell::Alive, Cell::Dead, Cell::Dead, Cell::Alive]);
    let checked =
        Universe::try_new(2, 2, vec![Cell::Alive, Cell::Dead, Cell::Dead, Cell::Alive]).unwrap();
    assert_eq!(built.cells(), checked.cells());
}

#[test]
fn get_index_is_row_major() {
    let universe = universe_with(4, 3, &[]);
    assert_eq!(universe.get_index(0, 0), 0);
    assert_eq!(universe.get_index(0, 3), 3);
    assert_eq!(universe.get_index(1, 0), 4);
    assert_eq!(universe.get_index(2, 3), 11);
}

#[test]
fn get_index_hits_every_slot_exactly_once() {
    let universe = universe_with(5, 3, &[]);
    let mut seen = vec![false; 15];
    for row in 0..3 {
        for column in 0..5 {
            let index = universe.get_index(row, column);
            assert!(index < 15);
            assert!(!seen[index]);
            seen[index] = true;
        }
    }
    assert!(seen.iter().all(|&slot| slot));
}

#[test]
fn neighbor_count_sees_all_eight_neighbors() {
    let universe = universe_with(
        5,
        5,
        &[
            (1, 1),
            (1, 2),
            (1, 3),
            (2, 1),
            (2, 3),
            (3, 1),
            (3, 2),
            (3, 3),
        ],
    );
    assert_eq!(universe.live_neighbor_count(2, 2), 8);
    // (0, 0) touches the ring only at (1, 1), through no wraparound.
    assert_eq!(universe.live_neighbor_count(0, 0), 1);
}

#[test]
fn neighbor_count_wraps_around_the_edges() {
    // Live cells in three corners: under wraparound they all border (0, 0).
    let universe = universe_with(4, 4, &[(0, 3), (3, 0), (3, 3)]);
    assert_eq!(universe.live_neighbor_count(0, 0), 3);
    // The three corners also border one another through the edges.
    assert_eq!(universe.live_neighbor_count(3, 3), 2);
    assert_eq!(universe.live_neighbor_count(1, 1), 0);
}

#[test]
fn neighbor_counts_translate_with_the_pattern() {
    // The same L-shaped pattern, once at the origin and once shifted by
    // (2, 1) modulo the dimensions: every neighbor count shifts with it.
    let base = universe_with(4, 4, &[(0, 0), (0, 1), (1, 0)]);
    let shifted = universe_with(4, 4, &[(2, 1), (2, 2), (3, 1)]);
    for row in 0..4 {
        for column in 0..4 {
            assert_eq!(
                base.live_neighbor_count(row, column),
                shifted.live_neighbor_count((row + 2) % 4, (column + 1) % 4)
            );
        }
    }
}
