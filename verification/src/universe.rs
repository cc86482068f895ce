//! The grid state container: dimensions plus the flat row-major cell buffer,
//! with index computation, neighbor counting, and the per-generation `tick`.

use vstd::arithmetic::div_mod::lemma_fundamental_div_mod_converse_div;
use vstd::arithmetic::div_mod::lemma_fundamental_div_mod_converse_mod;
use vstd::arithmetic::div_mod::lemma_mod_division_less_than_divisor;
use vstd::prelude::*;

use crate::rules::Cell;
use crate::rules::neighbor_value;
use crate::rules::spec_index;
use crate::rules::spec_live_neighbor_count;
use crate::rules::spec_tick;

verus! {

/// A toroidal Game of Life grid. The cell at `(row, column)` sits at flat
/// index `row * width + column` of `cells`.
pub struct Universe {
    width: u32,
    height: u32,
    cells: Vec<Cell>,
}

impl View for Universe {
    type V = Seq<Cell>;

    /// The grid as the mathematical sequence of its cells, row-major.
    closed spec fn view(&self) -> Seq<Cell> {
        self.cells@
    }
}

impl Universe {
    /// Number of columns, as a mathematical integer.
    pub closed spec fn spec_width(&self) -> int {
        self.width as int
    }

    /// Number of rows, as a mathematical integer.
    pub closed spec fn spec_height(&self) -> int {
        self.height as int
    }

    /// Both dimensions are positive, every cell index fits in `u32`, and the
    /// buffer holds exactly one cell per grid position.
    pub open spec fn well_formed(&self) -> bool {
        &&& self.spec_width() >= 1
        &&& self.spec_height() >= 1
        &&& self.spec_width() * self.spec_height() <= u32::MAX
        &&& self@.len() == self.spec_width() * self.spec_height()
    }

    /// Builds the grid from its dimensions and an initial cell assignment,
    /// which the caller must already have sized to the grid.
    pub fn new(width: u32, height: u32, cells: Vec<Cell>) -> (universe: Universe)
        requires
            width >= 1,
            height >= 1,
            width * height <= u32::MAX,
            cells@.len() == width * height,
        ensures
            universe.well_formed(),
            universe.spec_width() == width,
            universe.spec_height() == height,
            universe@ == cells@,
    {
        Universe { width, height, cells }
    }

    /// Builds the grid if the dimensions and the buffer agree, and refuses
    /// malformed input: the result is `Some` exactly when both dimensions are
    /// positive, their product fits in `u32`, and the buffer length matches.
    pub fn try_new(width: u32, height: u32, cells: Vec<Cell>) -> (result: Option<Universe>)
        ensures
            result is Some <==> {
                &&& width >= 1
                &&& height >= 1
                &&& width * height <= u32::MAX
                &&& cells@.len() == width * height
            },
            result matches Some(universe) ==> {
                &&& universe.well_formed()
                &&& universe.spec_width() == width
                &&& universe.spec_height() == height
                &&& universe@ == cells@
            },
    {
        if width == 0 || height == 0 {
            return None;
        }
        proof {
            assert((width as int) * (height as int) <= u32::MAX * u32::MAX) by (nonlinear_arith)
                requires
                    0 <= width <= u32::MAX,
                    0 <= height <= u32::MAX,
            ;
        }
        let area: u64 = (width as u64) * (height as u64);
        if area > u32::MAX as u64 {
            return None;
        }
        if (cells.len() as u64) != area {
            return None;
        }
        Some(Universe { width, height, cells })
    }

    /// Number of columns.
    pub fn width(&self) -> (width: u32)
        ensures
            width == self.spec_width(),
    {
        self.width
    }

    /// Number of rows.
    pub fn height(&self) -> (height: u32)
        ensures
            height == self.spec_height(),
    {
        self.height
    }

    /// The flat row-major cell buffer, for a renderer to read.
    pub fn cells(&self) -> (cells: &Vec<Cell>)
        ensures
            cells@ == self@,
    {
        &self.cells
    }

    /// Flat index of `(row, column)`: `row * width + column`.
    pub fn get_index(&self, row: u32, column: u32) -> (index: usize)
        requires
            self.well_formed(),
            row < self.spec_height(),
            column < self.spec_width(),
        ensures
            index == spec_index(self.spec_width(), row as int, column as int),
            index < self@.len(),
    {
        proof {
            lemma_index_in_range(self.spec_width(), self.spec_height(), row as int, column as int);
        }
        (row * self.width + column) as usize
    }

    /// The live/dead value of one toroidal neighbor of `(row, column)`. The
    /// wrapped coordinate sums are formed in 64 bits so that offsets as large
    /// as `height - 1` and `width - 1` cannot overflow.
    fn neighbor_live_value(&self, row: u32, column: u32, delta_row: u32, delta_column: u32) -> (value:
        u8)
        requires
            self.well_formed(),
            row < self.spec_height(),
            column < self.spec_width(),
        ensures
            value == neighbor_value(
                self@,
                self.spec_width(),
                self.spec_height(),
                row as int,
                column as int,
                delta_row as int,
                delta_column as int,
            ),
            value <= 1,
    {
        proof {
            lemma_mod_division_less_than_divisor(
                row as int + delta_row as int,
                self.spec_height(),
            );
            lemma_mod_division_less_than_divisor(
                column as int + delta_column as int,
                self.spec_width(),
            );
        }
        let neighbor_row = (((row as u64) + (delta_row as u64)) % (self.height as u64)) as u32;
        let neighbor_column = (((column as u64) + (delta_column as u64)) % (self.width as u64))
            as u32;
        let index = self.get_index(neighbor_row, neighbor_column);
        match self.cells[index] {
            Cell::Dead => 0,
            Cell::Alive => 1,
        }
    }

    /// Number of live cells among the eight toroidal neighbors of
    /// `(row, column)`: each of the eight offset pairs drawn from one step
    /// up/down/left/right (with `height - 1` and `width - 1` standing for one
    /// step up and one step left under wraparound), skipping `(0, 0)`.
    pub fn live_neighbor_count(&self, row: u32, column: u32) -> (count: u8)
        requires
            self.well_formed(),
            row < self.spec_height(),
            column < self.spec_width(),
        ensures
            count == spec_live_neighbor_count(
                self@,
                self.spec_width(),
                self.spec_height(),
                row as int,
                column as int,
            ),
            count <= 8,
    {
        let row_up = self.height - 1;
        let column_left = self.width - 1;
        let mut count: u8 = 0;
        count = count + self.neighbor_live_value(row, column, row_up, column_left);
        count = count + self.neighbor_live_value(row, column, row_up, 0);
        count = count + self.neighbor_live_value(row, column, row_up, 1);
        count = count + self.neighbor_live_value(row, column, 0, column_left);
        count = count + self.neighbor_live_value(row, column, 0, 1);
        count = count + self.neighbor_live_value(row, column, 1, column_left);
        count = count + self.neighbor_live_value(row, column, 1, 0);
        count = count + self.neighbor_live_value(row, column, 1, 1);
        count
    }

    /// Advances the grid by exactly one synchronous generation: a complete
    /// replacement buffer is computed from the current state alone, then
    /// swapped in, so no cell written this generation influences another.
    #[verifier::loop_isolation(false)]
    pub fn tick(&mut self)
        requires
            old(self).well_formed(),
        ensures
            final(self).well_formed(),
            final(self).spec_width() == old(self).spec_width(),
            final(self).spec_height() == old(self).spec_height(),
            final(self)@ == spec_tick(old(self)@, old(self).spec_width(), old(self).spec_height()),
    {
        let ghost target = spec_tick(self@, self.spec_width(), self.spec_height());
        let mut next: Vec<Cell> = Vec::new();
        let mut row: u32 = 0;
        while row < self.height
            invariant
                row <= self.height,
                next@.len() == row * self.spec_width(),
                forall|i: int| 0 <= i < next@.len() ==> next@[i] == target[i],
            decreases self.height - row,
        {
            let mut column: u32 = 0;
            while column < self.width
                invariant
                    row < self.height,
                    column <= self.width,
                    next@.len() == row * self.spec_width() + column,
                    forall|i: int| 0 <= i < next@.len() ==> next@[i] == target[i],
                decreases self.width - column,
            {
                let index = self.get_index(row, column);
                let cell = self.cells[index];
                let live_neighbors = self.live_neighbor_count(row, column);
                let updated = match cell {
                    Cell::Alive => if live_neighbors == 2 || live_neighbors == 3 {
                        Cell::Alive
                    } else {
                        Cell::Dead
                    },
                    Cell::Dead => if live_neighbors == 3 {
                        Cell::Alive
                    } else {
                        Cell::Dead
                    },
                };
                proof {
                    lemma_fundamental_div_mod_converse_div(
                        index as int,
                        self.spec_width(),
                        row as int,
                        column as int,
                    );
                    lemma_fundamental_div_mod_converse_mod(
                        index as int,
                        self.spec_width(),
                        row as int,
                        column as int,
                    );
                    assert(updated == target[index as int]);
                }
                next.push(updated);
                column = column + 1;
            }
            proof {
                assert((row + 1) * self.spec_width() == row * self.spec_width()
                    + self.spec_width()) by (nonlinear_arith);
            }
            row = row + 1;
        }
        proof {
            assert(self.spec_height() * self.spec_width() == self.spec_width()
                * self.spec_height()) by (nonlinear_arith);
        }
        self.cells = next;
        proof {
            assert(self@ =~= target);
        }
    }
}

/// In-range coordinates have their row-major index inside the buffer.
pub proof fn lemma_index_in_range(width: int, height: int, row: int, column: int)
    requires
        width >= 1,
        height >= 1,
        0 <= row < height,
        0 <= column < width,
    ensures
        0 <= spec_index(width, row, column) < width * height,
{
    assert(0 <= row * width + column < width * height) by (nonlinear_arith)
        requires
            width >= 1,
            height >= 1,
            0 <= row < height,
            0 <= column < width,
    ;
}

} // verus!
