//! Global laws of the game, proved from the model in `rules`: the row-major
//! index layout is a bijection, the transition rule acts cell by cell, the
//! transition is deterministic, and still lifes persist forever.

use vstd::arithmetic::div_mod::lemma_add_mod_noop_right;
use vstd::arithmetic::div_mod::lemma_fundamental_div_mod;
use vstd::arithmetic::div_mod::lemma_fundamental_div_mod_converse_div;
use vstd::arithmetic::div_mod::lemma_fundamental_div_mod_converse_mod;
use vstd::arithmetic::div_mod::lemma_mod_division_less_than_divisor;
use vstd::arithmetic::div_mod::lemma_small_mod;
use vstd::prelude::*;

use crate::rules::Cell;
use crate::rules::neighbor_value;
use crate::rules::next_cell;
use crate::rules::spec_index;
use crate::rules::spec_live_neighbor_count;
use crate::rules::spec_tick;
use crate::rules::spec_ticks;
use crate::universe::lemma_index_in_range;

verus! {

/// The row-major index map is injective on in-range coordinates: distinct
/// positions never share a buffer slot.
pub proof fn lemma_index_injective(
    width: int,
    height: int,
    row1: int,
    column1: int,
    row2: int,
    column2: int,
)
    requires
        width >= 1,
        height >= 1,
        0 <= row1 < height,
        0 <= column1 < width,
        0 <= row2 < height,
        0 <= column2 < width,
        spec_index(width, row1, column1) == spec_index(width, row2, column2),
    ensures
        row1 == row2,
        column1 == column2,
{
    lemma_fundamental_div_mod_converse_div(row1 * width + column1, width, row1, column1);
    lemma_fundamental_div_mod_converse_mod(row1 * width + column1, width, row1, column1);
    lemma_fundamental_div_mod_converse_div(row2 * width + column2, width, row2, column2);
    lemma_fundamental_div_mod_converse_mod(row2 * width + column2, width, row2, column2);
}

/// The row-major index map is surjective onto `0 .. width * height`: every
/// buffer slot is the image of exactly one in-range coordinate pair, namely
/// `(index / width, index % width)`. Together with `lemma_index_injective`
/// and `lemma_index_in_range`, the map is a bijection between the coordinate
/// rectangle and the buffer positions.
pub proof fn lemma_index_surjective(width: int, height: int, index: int)
    requires
        width >= 1,
        height >= 1,
        0 <= index < width * height,
    ensures
        0 <= index / width < height,
        0 <= index % width < width,
        spec_index(width, index / width, index % width) == index,
{
    lemma_fundamental_div_mod(index, width);
    lemma_mod_division_less_than_divisor(index, width);
    assert(0 <= index / width < height) by (nonlinear_arith)
        requires
            index == width * (index / width) + index % width,
            0 <= index % width < width,
            0 <= index < width * height,
            width >= 1,
    ;
    assert((index / width) * width == width * (index / width)) by (nonlinear_arith);
}

/// The transition acts cell by cell: position `(row, column)` of the stepped
/// grid is the B3/S23 rule applied to that cell's old state and old live
/// neighbor count. Spelled out: a live cell dies below 2 live neighbors
/// (underpopulation), lives on at 2 or 3, and dies above 3 (overpopulation);
/// a dead cell comes alive on exactly 3 live neighbors and stays dead
/// otherwise.
pub proof fn lemma_tick_cell(cells: Seq<Cell>, width: int, height: int, row: int, column: int)
    requires
        width >= 1,
        height >= 1,
        cells.len() == width * height,
        0 <= row < height,
        0 <= column < width,
    ensures
        spec_tick(cells, width, height)[spec_index(width, row, column)] == next_cell(
            cells[spec_index(width, row, column)],
            spec_live_neighbor_count(cells, width, height, row, column),
        ),
        ({
            let old_cell = cells[spec_index(width, row, column)];
            let stepped_cell = spec_tick(cells, width, height)[spec_index(width, row, column)];
            let live_neighbors = spec_live_neighbor_count(cells, width, height, row, column);
            &&& (old_cell is Alive && live_neighbors < 2 ==> stepped_cell is Dead)
            &&& (old_cell is Alive && (live_neighbors == 2 || live_neighbors == 3)
                ==> stepped_cell is Alive)
            &&& (old_cell is Alive && live_neighbors > 3 ==> stepped_cell is Dead)
            &&& (old_cell is Dead && live_neighbors == 3 ==> stepped_cell is Alive)
            &&& (old_cell is Dead && live_neighbors != 3 ==> stepped_cell is Dead)
        }),
{
    lemma_index_in_range(width, height, row, column);
    lemma_fundamental_div_mod_converse_div(row * width + column, width, row, column);
    lemma_fundamental_div_mod_converse_mod(row * width + column, width, row, column);
}

/// One neighbor term is invariant under translation: if `shifted` holds at
/// each position the cell that `cells` holds at the position translated by
/// `(shift_row, shift_column)` (modulo the dimensions), then the neighbor of
/// `(row, column)` in `shifted` at a given offset has the value of the
/// neighbor of the translated position in `cells` at the same offset.
proof fn lemma_neighbor_value_translation(
    cells: Seq<Cell>,
    shifted: Seq<Cell>,
    width: int,
    height: int,
    shift_row: int,
    shift_column: int,
    row: int,
    column: int,
    delta_row: int,
    delta_column: int,
)
    requires
        width >= 1,
        height >= 1,
        cells.len() == width * height,
        shifted.len() == width * height,
        0 <= shift_row < height,
        0 <= shift_column < width,
        0 <= row < height,
        0 <= column < width,
        0 <= delta_row,
        0 <= delta_column,
        forall|r: int, c: int|
            0 <= r < height && 0 <= c < width ==> shifted[spec_index(width, r, c)] == cells[spec_index(
                width,
                (r + shift_row) % height,
                (c + shift_column) % width,
            )],
    ensures
        neighbor_value(shifted, width, height, row, column, delta_row, delta_column)
            == neighbor_value(
            cells,
            width,
            height,
            (row + shift_row) % height,
            (column + shift_column) % width,
            delta_row,
            delta_column,
        ),
{
    let wrapped_row = (row + delta_row) % height;
    let wrapped_column = (column + delta_column) % width;
    lemma_mod_division_less_than_divisor(row + delta_row, height);
    lemma_mod_division_less_than_divisor(column + delta_column, width);
    assert(shifted[spec_index(width, wrapped_row, wrapped_column)] == cells[spec_index(
        width,
        (wrapped_row + shift_row) % height,
        (wrapped_column + shift_column) % width,
    )]);
    assert((shift_row + (row + delta_row) % height) % height == (shift_row + (row + delta_row))
        % height) by {
        lemma_add_mod_noop_right(shift_row, row + delta_row, height);
    };
    assert((delta_row + (row + shift_row) % height) % height == (delta_row + (row + shift_row))
        % height) by {
        lemma_add_mod_noop_right(delta_row, row + shift_row, height);
    };
    assert((shift_column + (column + delta_column) % width) % width == (shift_column + (column
        + delta_column)) % width) by {
        lemma_add_mod_noop_right(shift_column, column + delta_column, width);
    };
    assert((delta_column + (column + shift_column) % width) % width == (delta_column + (column
        + shift_column)) % width) by {
        lemma_add_mod_noop_right(delta_column, column + shift_column, width);
    };
}

/// Toroidal translation symmetry: the rule has no privileged origin. If
/// `shifted` is `cells` translated by `(shift_row, shift_column)` modulo the
/// dimensions, then the live neighbor count of `shifted` at any position is
/// the live neighbor count of `cells` at the translated position.
pub proof fn lemma_neighbor_count_translation(
    cells: Seq<Cell>,
    shifted: Seq<Cell>,
    width: int,
    height: int,
    shift_row: int,
    shift_column: int,
    row: int,
    column: int,
)
    requires
        width >= 1,
        height >= 1,
        cells.len() == width * height,
        shifted.len() == width * height,
        0 <= shift_row < height,
        0 <= shift_column < width,
        0 <= row < height,
        0 <= column < width,
        forall|r: int, c: int|
            0 <= r < height && 0 <= c < width ==> shifted[spec_index(width, r, c)] == cells[spec_index(
                width,
                (r + shift_row) % height,
                (c + shift_column) % width,
            )],
    ensures
        spec_live_neighbor_count(shifted, width, height, row, column) == spec_live_neighbor_count(
            cells,
            width,
            height,
            (row + shift_row) % height,
            (column + shift_column) % width,
        ),
{
    let sr = shift_row;
    let sc = shift_column;
    lemma_neighbor_value_translation(
        cells, shifted, width, height, sr, sc, row, column, height - 1, width - 1,
    );
    lemma_neighbor_value_translation(cells, shifted, width, height, sr, sc, row, column, height - 1, 0);
    lemma_neighbor_value_translation(cells, shifted, width, height, sr, sc, row, column, height - 1, 1);
    lemma_neighbor_value_translation(cells, shifted, width, height, sr, sc, row, column, 0, width - 1);
    lemma_neighbor_value_translation(cells, shifted, width, height, sr, sc, row, column, 0, 1);
    lemma_neighbor_value_translation(cells, shifted, width, height, sr, sc, row, column, 1, width - 1);
    lemma_neighbor_value_translation(cells, shifted, width, height, sr, sc, row, column, 1, 0);
    lemma_neighbor_value_translation(cells, shifted, width, height, sr, sc, row, column, 1, 1);
}

/// The transition is a pure function of the current grid: equal grids step to
/// equal grids, so separately built but identically seeded grids agree after
/// any one step.
pub proof fn lemma_tick_deterministic(
    cells1: Seq<Cell>,
    cells2: Seq<Cell>,
    width: int,
    height: int,
)
    requires
        cells1 == cells2,
    ensures
        spec_tick(cells1, width, height) == spec_tick(cells2, width, height),
{
}

/// A grid unchanged by one generation is unchanged by any number of
/// generations.
pub proof fn lemma_still_life_forever(cells: Seq<Cell>, width: int, height: int, generations: nat)
    requires
        spec_tick(cells, width, height) == cells,
    ensures
        spec_ticks(cells, width, height, generations) == cells,
    decreases generations,
{
    if generations > 0 {
        lemma_still_life_forever(cells, width, height, (generations - 1) as nat);
    }
}

/// A toroidal grid of the given dimensions holding a 2-by-2 block of live
/// cells in its top-left corner (rows 0 and 1, columns 0 and 1), every other
/// cell dead.
pub open spec fn block_grid(width: int, height: int) -> Seq<Cell> {
    Seq::new(
        (width * height) as nat,
        |i: int|
            if i / width < 2 && i % width < 2 {
                Cell::Alive
            } else {
                Cell::Dead
            },
    )
}

/// The block grid holds a live cell exactly at the four block positions.
proof fn lemma_block_cell(width: int, height: int, row: int, column: int)
    requires
        width >= 3,
        height >= 3,
        0 <= row < height,
        0 <= column < width,
    ensures
        block_grid(width, height)[spec_index(width, row, column)] == (
        if row < 2 && column < 2 {
            Cell::Alive
        } else {
            Cell::Dead
        }),
{
    assert(width * height >= 9) by (nonlinear_arith)
        requires
            width >= 3,
            height >= 3,
    ;
    lemma_index_in_range(width, height, row, column);
    lemma_fundamental_div_mod_converse_div(row * width + column, width, row, column);
    lemma_fundamental_div_mod_converse_mod(row * width + column, width, row, column);
}

/// The three neighbor offsets along one dimension, resolved: one step back
/// wraps 0 to the far edge, one step forward wraps the far edge to 0, and a
/// zero offset stays put.
proof fn lemma_wrap_offsets(dimension: int, coordinate: int)
    requires
        dimension >= 1,
        0 <= coordinate < dimension,
    ensures
        (coordinate + (dimension - 1)) % dimension == (
        if coordinate == 0 {
            dimension - 1
        } else {
            coordinate - 1
        }),
        coordinate % dimension == coordinate,
        (coordinate + 1) % dimension == (
        if coordinate + 1 == dimension {
            0
        } else {
            coordinate + 1
        }),
{
    if coordinate == 0 {
        lemma_small_mod((dimension - 1) as nat, dimension as nat);
    } else {
        lemma_fundamental_div_mod_converse_mod(
            coordinate + dimension - 1,
            dimension,
            1,
            coordinate - 1,
        );
    }
    lemma_small_mod(coordinate as nat, dimension as nat);
    if coordinate + 1 == dimension {
        lemma_fundamental_div_mod_converse_mod(coordinate + 1, dimension, 1, 0);
    } else {
        lemma_small_mod((coordinate + 1) as nat, dimension as nat);
    }
}

/// In the block grid, every live cell has exactly 3 live neighbors (the
/// other three block members), and no dead cell has exactly 3.
proof fn lemma_block_neighbor_count(width: int, height: int, row: int, column: int)
    requires
        width >= 3,
        height >= 3,
        0 <= row < height,
        0 <= column < width,
    ensures
        row < 2 && column < 2 ==> spec_live_neighbor_count(
            block_grid(width, height),
            width,
            height,
            row,
            column,
        ) == 3,
        !(row < 2 && column < 2) ==> spec_live_neighbor_count(
            block_grid(width, height),
            width,
            height,
            row,
            column,
        ) != 3,
{
    lemma_wrap_offsets(height, row);
    lemma_wrap_offsets(width, column);
    let previous_row = (row + (height - 1)) % height;
    let next_row = (row + 1) % height;
    let previous_column = (column + (width - 1)) % width;
    let next_column = (column + 1) % width;
    lemma_block_cell(width, height, previous_row, previous_column);
    lemma_block_cell(width, height, previous_row, column);
    lemma_block_cell(width, height, previous_row, next_column);
    lemma_block_cell(width, height, row, previous_column);
    lemma_block_cell(width, height, row, next_column);
    lemma_block_cell(width, height, next_row, previous_column);
    lemma_block_cell(width, height, next_row, column);
    lemma_block_cell(width, height, next_row, next_column);
}

/// On any torus with both dimensions at least 3, the 2-by-2 block is a still
/// life: one generation leaves it unchanged, and therefore so does any
/// number of generations.
pub proof fn lemma_block_still_life(width: int, height: int, generations: nat)
    requires
        width >= 3,
        height >= 3,
    ensures
        spec_tick(block_grid(width, height), width, height) == block_grid(width, height),
        spec_ticks(block_grid(width, height), width, height, generations) == block_grid(
            width,
            height,
        ),
{
    let grid = block_grid(width, height);
    assert(width * height >= 9) by (nonlinear_arith)
        requires
            width >= 3,
            height >= 3,
    ;
    assert forall|i: int| 0 <= i < grid.len() implies spec_tick(grid, width, height)[i]
        == grid[i] by {
        lemma_index_surjective(width, height, i);
        lemma_block_cell(width, height, i / width, i % width);
        lemma_block_neighbor_count(width, height, i / width, i % width);
    };
    assert(spec_tick(grid, width, height) =~= grid);
    lemma_still_life_forever(grid, width, height, generations);
}

} // verus!
