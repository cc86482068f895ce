//! The mathematical model of the game: the row-major index layout, the
//! toroidal neighborhood, and the B3/S23 transition rule.

use vstd::prelude::*;

verus! {

/// The state of one grid cell.
#[derive(Debug, Copy, Clone, PartialEq, Eq, Structural)]
pub enum Cell {
    Dead,
    Alive,
}

/// A cell's contribution to a neighbor count: 1 if alive, 0 if dead.
pub open spec fn live_value(cell: Cell) -> int {
    match cell {
        Cell::Dead => 0,
        Cell::Alive => 1,
    }
}

/// Row-major position of `(row, column)` in a grid `width` columns wide.
pub open spec fn spec_index(width: int, row: int, column: int) -> int {
    row * width + column
}

/// The live/dead value of the neighbor reached from `(row, column)` by the
/// offset `(delta_row, delta_column)`, with toroidal wraparound: coordinates
/// are reduced modulo the grid dimensions, so edges meet opposite edges.
pub open spec fn neighbor_value(
    cells: Seq<Cell>,
    width: int,
    height: int,
    row: int,
    column: int,
    delta_row: int,
    delta_column: int,
) -> int {
    live_value(
        cells[spec_index(width, (row + delta_row) % height, (column + delta_column) % width)],
    )
}

/// Number of live cells among the eight toroidal neighbors of `(row, column)`.
/// The offsets `height - 1` and `width - 1` stand for one step up and one step
/// left: adding them and reducing modulo the dimension is subtracting one.
pub open spec fn spec_live_neighbor_count(
    cells: Seq<Cell>,
    width: int,
    height: int,
    row: int,
    column: int,
) -> int {
    neighbor_value(cells, width, height, row, column, height - 1, width - 1)
        + neighbor_value(cells, width, height, row, column, height - 1, 0)
        + neighbor_value(cells, width, height, row, column, height - 1, 1)
        + neighbor_value(cells, width, height, row, column, 0, width - 1)
        + neighbor_value(cells, width, height, row, column, 0, 1)
        + neighbor_value(cells, width, height, row, column, 1, width - 1)
        + neighbor_value(cells, width, height, row, column, 1, 0)
        + neighbor_value(cells, width, height, row, column, 1, 1)
}

/// The B3/S23 rule for one cell: a live cell survives on exactly 2 or 3 live
/// neighbors (it dies of underpopulation below 2 and of overpopulation above
/// 3), and a dead cell is born on exactly 3 live neighbors.
pub open spec fn next_cell(current: Cell, live_neighbors: int) -> Cell {
    match current {
        Cell::Alive => if live_neighbors == 2 || live_neighbors == 3 {
            Cell::Alive
        } else {
            Cell::Dead
        },
        Cell::Dead => if live_neighbors == 3 {
            Cell::Alive
        } else {
            Cell::Dead
        },
    }
}

/// One synchronous generation: every cell of the new grid is determined by
/// the old grid alone.
pub open spec fn spec_tick(cells: Seq<Cell>, width: int, height: int) -> Seq<Cell> {
    Seq::new(
        cells.len(),
        |i: int|
            next_cell(cells[i], spec_live_neighbor_count(cells, width, height, i / width, i % width)),
    )
}

/// `generations` successive synchronous generations.
pub open spec fn spec_ticks(cells: Seq<Cell>, width: int, height: int, generations: nat) -> Seq<
    Cell,
>
    decreases generations,
{
    if generations == 0 {
        cells
    } else {
        spec_tick(spec_ticks(cells, width, height, (generations - 1) as nat), width, height)
    }
}

} // verus!
