//! The mathematical model of the board: a torus of cells in row-major order,
//! its neighbourhoods and the rule that takes one generation to the next.

use crate::bitset::{clear_bits, spare_count};
use crate::fill::FillOptions;
use crate::torus::{
    lemma_position_in_grid, lemma_wrap_back, lemma_wrap_inside, lemma_wrap_on, place_after,
    place_before,
};
use vstd::arithmetic::div_mod::{lemma_mod_bound, lemma_mod_twice};
use vstd::prelude::*;

verus! {

/// A board as a mathematical value: `height` rows of `width` cells, the cell
/// in row `r` and column `c` at position `r * width + c` of `cells`.
#[verifier::ext_equal]
pub struct Grid {
    pub width: nat,
    pub height: nat,
    pub cells: Seq<bool>,
}

/// One for a live cell, nothing for a dead one.
pub open spec fn census(alive: bool) -> nat {
    if alive {
        1
    } else {
        0
    }
}

/// The state of a cell in the next generation, from its state now and the
/// number of its live neighbours.
pub open spec fn next_state(alive: bool, live_neighbours: nat) -> bool {
    if alive && live_neighbours < 2 {
        false
    } else if alive && (live_neighbours == 2 || live_neighbours == 3) {
        true
    } else if alive && live_neighbours > 3 {
        false
    } else if !alive && live_neighbours == 3 {
        true
    } else {
        alive
    }
}

/// The symbol that stands for a cell in the rendering of a board.
pub open spec fn glyph(alive: bool) -> char {
    if alive {
        '\u{25FC}'
    } else {
        '\u{25FB}'
    }
}

/// A live cell survives with exactly two or three live neighbours and dies
/// with fewer or more; a dead cell comes alive with exactly three and stays
/// dead with any other number.
pub proof fn lemma_rule_boundary(live_neighbours: nat)
    ensures
        next_state(true, live_neighbours) <==> live_neighbours == 2 || live_neighbours == 3,
        next_state(false, live_neighbours) <==> live_neighbours == 3,
{
}

impl Grid {
    /// Both sides are positive and there is exactly one cell per position.
    pub open spec fn wf(self) -> bool {
        &&& self.width > 0
        &&& self.height > 0
        &&& self.cells.len() == self.width * self.height
    }

    /// The position in `cells` of the cell that `(row, column)` names on the
    /// torus: any integer row or column is wrapped onto the board.
    pub open spec fn index(self, row: int, column: int) -> int {
        (row % (self.height as int)) * self.width + column % (self.width as int)
    }

    /// Whether the cell that `(row, column)` names on the torus is alive.
    pub open spec fn alive(self, row: int, column: int) -> bool {
        self.cells[self.index(row, column)]
    }

    /// How many of the eight cells around `(row, column)` on the torus are
    /// alive.
    pub open spec fn live_neighbours(self, row: int, column: int) -> nat {
        census(self.alive(row - 1, column - 1)) + census(self.alive(row - 1, column)) + census(
            self.alive(row - 1, column + 1),
        ) + census(self.alive(row, column - 1)) + census(self.alive(row, column + 1)) + census(
            self.alive(row + 1, column - 1),
        ) + census(self.alive(row + 1, column)) + census(self.alive(row + 1, column + 1))
    }

    /// The state of the cell at `position` one generation on.
    pub open spec fn next_cell(self, position: int) -> bool {
        next_state(
            self.cells[position],
            self.live_neighbours(position / (self.width as int), position % (self.width as int)),
        )
    }

    /// The board one generation on: every cell follows the rule, read off the
    /// board as it is now.
    pub open spec fn next_generation(self) -> Grid {
        Grid {
            width: self.width,
            height: self.height,
            cells: Seq::new(self.cells.len(), |position: int| self.next_cell(position)),
        }
    }

    /// The board with the cell that `(row, column)` names set to `state`.
    pub open spec fn with_cell(self, row: int, column: int, state: bool) -> Grid {
        Grid {
            width: self.width,
            height: self.height,
            cells: self.cells.update(self.index(row, column), state),
        }
    }

    /// Whether one of the first `upto` pairs of `rows` and `columns` names the
    /// cell at `position`.
    pub open spec fn named_within(
        self,
        rows: Seq<usize>,
        columns: Seq<usize>,
        upto: int,
        position: int,
    ) -> bool {
        exists|k: int|
            0 <= k < upto && #[trigger] self.index(rows[k] as int, columns[k] as int) == position
    }

    /// The state of the cell at `position` once the first `upto` pairs of
    /// `rows` and `columns` have had their cells set to `state`.
    pub open spec fn set_within(
        self,
        state: bool,
        rows: Seq<usize>,
        columns: Seq<usize>,
        upto: int,
        position: int,
    ) -> bool {
        if self.named_within(rows, columns, upto, position) {
            state
        } else {
            self.cells[position]
        }
    }

    /// The board with every cell that a pair `(rows[k], columns[k])` names set
    /// to `state`, and every other cell as it was.
    pub open spec fn with_cells(self, state: bool, rows: Seq<usize>, columns: Seq<usize>) -> Grid {
        Grid {
            width: self.width,
            height: self.height,
            cells: Seq::new(
                self.cells.len(),
                |position: int| self.set_within(state, rows, columns, rows.len() as int, position),
            ),
        }
    }

    /// Every cell whose state `option` fixes has that state.
    pub open spec fn filled_by(self, option: FillOptions) -> bool {
        forall|position: int|
            0 <= position < self.cells.len() ==> match option.cell(position) {
                Some(state) => #[trigger] self.cells[position] == state,
                None => true,
            }
    }

    /// The cells as they are packed for a reader: in row-major order, with
    /// clear bits after the last cell to fill the last block of 32.
    pub open spec fn packed_bits(self) -> Seq<bool> {
        self.cells + clear_bits(spare_count(self.cells.len()))
    }

    /// The board as text: one line per row, top to bottom, each made of the
    /// glyphs of the row's cells, left to right, and a line break.
    pub open spec fn rendered(self) -> Seq<char> {
        let line = self.width as int + 1;
        Seq::new(
            (self.height * line) as nat,
            |i: int|
                if i % line == self.width as int {
                    '\n'
                } else {
                    glyph(self.cells[(i / line) * self.width + i % line])
                },
        )
    }

    /// The board with the cell that `(row, column)` names flipped.
    pub open spec fn toggled(self, row: int, column: int) -> Grid {
        self.with_cell(row, column, !self.alive(row, column))
    }

    /// One pair more names what the pairs before it name, and the cell of its
    /// own.
    pub proof fn lemma_named_one_more(
        self,
        rows: Seq<usize>,
        columns: Seq<usize>,
        upto: int,
        position: int,
    )
        requires
            0 <= upto,
        ensures
            self.named_within(rows, columns, upto + 1, position) <==> self.named_within(
                rows,
                columns,
                upto,
                position,
            ) || self.index(rows[upto] as int, columns[upto] as int) == position,
    {
        if self.named_within(rows, columns, upto + 1, position) {
            let k = choose|k: int|
                0 <= k < upto + 1 && #[trigger] self.index(rows[k] as int, columns[k] as int)
                    == position;
            if k < upto {
                assert(self.named_within(rows, columns, upto, position));
            }
        }
        if self.named_within(rows, columns, upto, position) {
            let k = choose|k: int|
                0 <= k < upto && #[trigger] self.index(rows[k] as int, columns[k] as int)
                    == position;
            assert(0 <= k < upto + 1);
        }
    }

    /// Coordinates inside the board name the cell at their row-major
    /// position, which lies inside `cells`.
    pub proof fn lemma_index_inside(self, row: int, column: int)
        requires
            self.wf(),
            0 <= row < self.height,
            0 <= column < self.width,
        ensures
            self.index(row, column) == row * self.width + column,
            0 <= self.index(row, column) < self.cells.len(),
    {
        lemma_wrap_inside(row, self.height as int);
        lemma_wrap_inside(column, self.width as int);
        lemma_position_in_grid(self.width as int, self.height as int, row, column);
    }

    /// Coordinates anywhere name the cell that their remainders, which lie
    /// inside the board, name.
    pub proof fn lemma_same_cell(self, row: int, column: int, far_row: int, far_column: int)
        requires
            self.wf(),
            0 <= row < self.height,
            0 <= column < self.width,
            row == far_row % (self.height as int),
            column == far_column % (self.width as int),
        ensures
            self.index(far_row, far_column) == row * self.width + column,
            self.index(row, column) == row * self.width + column,
            self.alive(far_row, far_column) == self.alive(row, column),
    {
        lemma_wrap_inside(row, self.height as int);
        lemma_wrap_inside(column, self.width as int);
    }

    /// The rows and columns on either side of `(row, column)`, found from the
    /// remainders of `row` and `column`, name its eight neighbours.
    pub proof fn lemma_neighbourhood(
        self,
        row: int,
        column: int,
        north: int,
        south: int,
        west: int,
        east: int,
    )
        requires
            self.wf(),
            north == place_before(row % (self.height as int), self.height as int),
            south == place_after(row % (self.height as int), self.height as int),
            west == place_before(column % (self.width as int), self.width as int),
            east == place_after(column % (self.width as int), self.width as int),
        ensures
            self.live_neighbours(row, column) == census(self.alive(north, west)) + census(
                self.alive(north, column),
            ) + census(self.alive(north, east)) + census(self.alive(row, west)) + census(
                self.alive(row, east),
            ) + census(self.alive(south, west)) + census(self.alive(south, column)) + census(
                self.alive(south, east),
            ),
    {
        let h = self.height as int;
        let w = self.width as int;
        lemma_wrap_back(row, h);
        lemma_wrap_on(row, h);
        lemma_wrap_back(column, w);
        lemma_wrap_on(column, w);
        lemma_mod_bound(row, h);
        lemma_mod_bound(column, w);
        lemma_wrap_inside(north, h);
        lemma_wrap_inside(south, h);
        lemma_wrap_inside(west, w);
        lemma_wrap_inside(east, w);
        self.lemma_same_cell(north, west, row - 1, column - 1);
        self.lemma_same_cell(north, column % w, row - 1, column);
        self.lemma_same_cell(north, column % w, north, column);
        self.lemma_same_cell(north, east, row - 1, column + 1);
        self.lemma_same_cell(row % h, west, row, column - 1);
        self.lemma_same_cell(row % h, west, row, west);
        self.lemma_same_cell(row % h, east, row, column + 1);
        self.lemma_same_cell(row % h, east, row, east);
        self.lemma_same_cell(south, west, row + 1, column - 1);
        self.lemma_same_cell(south, column % w, row + 1, column);
        self.lemma_same_cell(south, column % w, south, column);
        self.lemma_same_cell(south, east, row + 1, column + 1);
    }

    /// Wrapping is all that indexing does with coordinates: any row and
    /// column name the position that their remainders by the sides name, and
    /// that position lies inside `cells`.
    pub proof fn lemma_index_wraps(self, row: int, column: int)
        requires
            self.wf(),
        ensures
            self.index(row, column) == self.index(
                row % (self.height as int),
                column % (self.width as int),
            ),
            self.index(row, column) == self.index(row % (self.height as int), column),
            self.index(row, column) == self.index(row, column % (self.width as int)),
            0 <= self.index(row, column) < self.cells.len(),
    {
        let h = self.height as int;
        let w = self.width as int;
        lemma_mod_twice(row, h);
        lemma_mod_twice(column, w);
        lemma_mod_bound(row, h);
        lemma_mod_bound(column, w);
        lemma_position_in_grid(w, h, row % h, column % w);
    }

    /// No cell has more than eight live neighbours.
    pub proof fn lemma_live_neighbours_bound(self, row: int, column: int)
        ensures
            self.live_neighbours(row, column) <= 8,
    {
    }

    /// Flipping the same cell twice gives the board back.
    pub proof fn lemma_toggle_twice(self, row: int, column: int)
        requires
            self.wf(),
        ensures
            self.toggled(row, column).toggled(row, column) == self,
            self.toggled(row, column).alive(row, column) == !self.alive(row, column),
    {
        self.lemma_index_wraps(row, column);
        let once = self.toggled(row, column);
        assert(once.index(row, column) == self.index(row, column));
        assert(once.toggled(row, column).cells =~= self.cells);
    }
}

} // verus!
