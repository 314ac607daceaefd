//! The board itself: a packed bit per cell, with indexing, neighbour counting,
//! editing and stepping.

use crate::bitset::{
    bit_at, bit_seq, clear_bits, lemma_packs_unique, packs, spare_bits, spare_count,
};
use crate::chance::{alive_from_draw, draw_percent};
use crate::fill::FillOptions;
use crate::grid::{census, next_state, Grid};
use crate::torus::{lemma_position_in_grid, lemma_position_splits, step_back, step_on};
use fixedbitset::FixedBitSet;
use std::ops::Index;
use vstd::arithmetic::div_mod::lemma_mod_bound;
use vstd::prelude::*;

verus! {

/// A Game of Life board on a torus.
pub struct Universe {
    width: usize,
    height: usize,
    cells: FixedBitSet,
}

impl View for Universe {
    type V = Grid;

    closed spec fn view(&self) -> Grid {
        Grid {
            width: self.width as nat,
            height: self.height as nat,
            cells: bit_seq(self.cells),
        }
    }
}

impl Clone for Universe {
    /// A board with the same sides and the same cells.
    fn clone(&self) -> (copy: Self)
        ensures
            copy@ == self@,
            copy.spare() == self.spare(),
    {
        Universe { width: self.width, height: self.height, cells: self.cells.clone() }
    }
}

impl Index<(usize, usize)> for Universe {
    type Output = bool;

    /// Whether the cell that the pair of row and column names on the torus
    /// is alive.
    fn index(&self, index: (usize, usize)) -> (cell: &bool)
        ensures
            *cell == self@.alive(index.0 as int, index.1 as int),
    {
        let position = self.get_index(index.0, index.1);
        if bit_at(&self.cells, position) {
            &true
        } else {
            &false
        }
    }
}

impl vstd::std_specs::core::IndexSpecImpl<(usize, usize)> for Universe {
    open spec fn index_req(&self, index: &(usize, usize)) -> bool {
        self.wf()
    }
}

/// The bytes that `cells` cells take when packed eight to a byte.
pub fn packed_bytes(cells: usize) -> (bytes: usize)
    ensures
        bytes == (cells + 7) / 8,
{
    if cells % 8 == 0 {
        cells / 8
    } else {
        cells / 8 + 1
    }
}

/// The state of a cell in the next generation, from its state now and the
/// number of its live neighbours.
pub fn next_cell_state(alive: bool, live_neighbours: usize) -> (next: bool)
    ensures
        next == next_state(alive, live_neighbours as nat),
{
    match (alive, live_neighbours) {
        (true, x) if x < 2 => false,
        (true, 2..=3) => true,
        (true, x) if x > 3 => false,
        (false, 3) => true,
        (otherwise, _) => otherwise,
    }
}

impl Universe {
    /// The bits that the packed storage keeps past the last cell, to the end
    /// of its last block.
    pub closed spec fn spare(&self) -> Seq<bool> {
        spare_bits(self.cells)
    }

    /// The board is a well-formed grid whose cell count fits the machine, and
    /// the storage holds nothing but the cells: every spare bit is clear.
    pub open spec fn wf(&self) -> bool {
        &&& self@.wf()
        &&& self@.cells.len() <= usize::MAX
        &&& self.spare() == clear_bits(spare_count(self@.cells.len()))
    }

    /// A board of `width` by `height` cells, filled as `fill_option` says.
    pub fn new(width: usize, height: usize, fill_option: FillOptions) -> (universe: Universe)
        requires
            width > 0,
            height > 0,
            width * height <= usize::MAX,
        ensures
            universe.wf(),
            universe@.width == width,
            universe@.height == height,
            universe@.cells.len() == width * height,
            universe@.filled_by(fill_option),
    {
        let size = width * height;
        let cells = FixedBitSet::with_capacity(size);
        let mut universe = Universe { width, height, cells };
        universe.fill(fill_option);
        universe
    }

    /// Sets every cell anew, as `fill_option` says.
    pub fn fill(&mut self, fill_option: FillOptions)
        requires
            old(self).wf(),
        ensures
            final(self).wf(),
            final(self)@.width == old(self)@.width,
            final(self)@.height == old(self)@.height,
            final(self)@.filled_by(fill_option),
    {
        let size = self.width * self.height;
        match fill_option {
            FillOptions::AllDead => {
                for i in 0..size
                    invariant
                        self.wf(),
                        self@.width == old(self)@.width,
                        self@.height == old(self)@.height,
                        size == self@.cells.len(),
                        forall|k: int| 0 <= k < i ==> !(#[trigger] self@.cells[k]),
                {
                    self.cells.set(i, false);
                }
            },
            FillOptions::AllAlive => {
                for i in 0..size
                    invariant
                        self.wf(),
                        self@.width == old(self)@.width,
                        self@.height == old(self)@.height,
                        size == self@.cells.len(),
                        forall|k: int| 0 <= k < i ==> #[trigger] self@.cells[k],
                {
                    self.cells.set(i, true);
                }
            },
            FillOptions::Random => {
                for i in 0..size
                    invariant
                        self.wf(),
                        self@.width == old(self)@.width,
                        self@.height == old(self)@.height,
                        size == self@.cells.len(),
                {
                    let alive = alive_from_draw(draw_percent());
                    self.cells.set(i, alive);
                }
            },
            FillOptions::i2i7_Pattern => {
                for i in 0..size
                    invariant
                        self.wf(),
                        self@.width == old(self)@.width,
                        self@.height == old(self)@.height,
                        size == self@.cells.len(),
                        forall|k: int|
                            0 <= k < i ==> #[trigger] self@.cells[k] == (k % 2 == 0 || k % 7 == 0),
                {
                    self.cells.set(i, i % 2 == 0 || i % 7 == 0);
                }
            },
        }
    }

    /// The number of columns.
    pub fn width(&self) -> (width: usize)
        ensures
            width == self@.width,
    {
        self.width
    }

    /// The number of rows.
    pub fn height(&self) -> (height: usize)
        ensures
            height == self@.height,
    {
        self.height
    }

    /// The position of the cell that `(row, column)` names on the torus.
    pub fn get_index(&self, row: usize, column: usize) -> (index: usize)
        requires
            self.wf(),
        ensures
            index == self@.index(row as int, column as int),
            index < self@.cells.len(),
    {
        proof {
            lemma_mod_bound(row as int, self.height as int);
            lemma_mod_bound(column as int, self.width as int);
            lemma_position_in_grid(
                self.width as int,
                self.height as int,
                row as int % self.height as int,
                column as int % self.width as int,
            );
        }
        (row % self.height) * self.width + (column % self.width)
    }

    /// One if the cell at `(row, column)` is alive, nothing if it is dead.
    fn census_at(&self, row: usize, column: usize) -> (count: u8)
        requires
            self.wf(),
        ensures
            count == census(self@.alive(row as int, column as int)),
    {
        let index = self.get_index(row, column);
        bit_at(&self.cells, index) as u8
    }

    /// How many of the eight cells around `(row, column)` on the torus are
    /// alive.
    pub fn live_neighbours_count(&self, row: usize, column: usize) -> (count: usize)
        requires
            self.wf(),
        ensures
            count == self@.live_neighbours(row as int, column as int),
            count <= 8,
    {
        let here = row % self.height;
        let there = column % self.width;

        let north = step_back(here, self.height);
        let south = step_on(here, self.height);
        let west = step_back(there, self.width);
        let east = step_on(there, self.width);

        let mut count: u8 = 0;
        count += self.census_at(north, west);
        count += self.census_at(north, column);
        count += self.census_at(north, east);
        count += self.census_at(row, west);
        count += self.census_at(row, east);
        count += self.census_at(south, west);
        count += self.census_at(south, column);
        count += self.census_at(south, east);

        assert(count == self@.live_neighbours(row as int, column as int)) by {
            self@.lemma_neighbourhood(
                row as int,
                column as int,
                north as int,
                south as int,
                west as int,
                east as int,
            );
        }
        count as usize
    }

    /// Flips the cell that `(row, col)` names on the torus.
    pub fn toggle_cell(&mut self, row: usize, col: usize)
        requires
            old(self).wf(),
        ensures
            final(self).wf(),
            final(self)@ == old(self)@.toggled(row as int, col as int),
    {
        let idx = self.get_index(row, col);
        let alive = bit_at(&self.cells, idx);
        self.cells.set(idx, !alive);
    }

    /// Advances the board by one generation: every cell follows the rule,
    /// applied to the board as it was before the call.
    pub fn tick(&mut self)
        requires
            old(self).wf(),
        ensures
            final(self).wf(),
            final(self)@ == old(self)@.next_generation(),
    {
        let current = self.clone();
        let height = self.height;
        let width = self.width;
        assert(0 * width == 0) by (nonlinear_arith);

        for row in 0..height
            invariant
                self.wf(),
                current.wf(),
                current@ == old(self)@,
                self@.width == current@.width,
                self@.height == current@.height,
                height == self.height,
                width == self.width,
                forall|position: int|
                    0 <= position < row * width ==> #[trigger] self@.cells[position]
                        == current@.next_cell(position),
        {
            for column in 0..width
                invariant
                    self.wf(),
                    current.wf(),
                    current@ == old(self)@,
                    self@.width == current@.width,
                    self@.height == current@.height,
                    height == self.height,
                    width == self.width,
                    row < height,
                    forall|position: int|
                        0 <= position < row * width + column ==> #[trigger] self@.cells[position]
                            == current@.next_cell(position),
            {
                let idx = self.get_index(row, column);
                let cell = bit_at(&current.cells, idx);
                let live_neighbours_count = current.live_neighbours_count(row, column);
                proof {
                    current@.lemma_index_inside(row as int, column as int);
                    lemma_position_splits(width as int, row as int, column as int);
                }
                self.cells.set(idx, next_cell_state(cell, live_neighbours_count));
            }
            assert(row * width + width == (row + 1) * width) by (nonlinear_arith);
        }
        assert(height * width == width * height) by (nonlinear_arith);
        assert(self@ =~= old(self)@.next_generation());
    }

    /// Sets to `state` every cell that a pair `(xs[i], ys[i])` of row and
    /// column names on the torus. Every entry of `xs` needs its partner in
    /// `ys`.
    pub fn set_cells(&mut self, state: bool, xs: &[usize], ys: &[usize])
        requires
            old(self).wf(),
            xs@.len() <= ys@.len(),
        ensures
            final(self).wf(),
            final(self)@ == old(self)@.with_cells(state, xs@, ys@),
    {
        let ghost start = self@;
        for i in 0..xs.len()
            invariant
                self.wf(),
                xs@.len() <= ys@.len(),
                self@.width == start.width,
                self@.height == start.height,
                self@.cells.len() == start.cells.len(),
                forall|position: int|
                    0 <= position < self@.cells.len() ==> #[trigger] self@.cells[position]
                        == start.set_within(state, xs@, ys@, i as int, position),
        {
            let ghost before = self@;
            let idx = self.get_index(xs[i], ys[i]);
            self.cells.set(idx, state);
            proof {
                assert forall|position: int|
                    0 <= position < self@.cells.len() implies #[trigger] self@.cells[position]
                    == start.set_within(state, xs@, ys@, i + 1, position) by {
                    start.lemma_named_one_more(xs@, ys@, i as int, position);
                    assert(before.cells[position] == start.set_within(
                        state,
                        xs@,
                        ys@,
                        i as int,
                        position,
                    ));
                }
            }
        }
        assert(self@ =~= start.with_cells(state, xs@, ys@));
    }

    /// The packed cells, 32 to a block, for a reader that draws the board:
    /// the cells in row-major order and, after the last of them, clear bits
    /// to the end of the last block.
    pub fn get_cells(&self) -> (blocks: &[u32])
        requires
            self.wf(),
        ensures
            packs(blocks@, self@.packed_bits()),
            blocks@.len() == (self@.cells.len() + 31) / 32,
    {
        self.cells.as_slice()
    }

    /// Boards with the same cells have the same packed cells: whatever packs
    /// the cells of both, clear bits after them, is one sequence of blocks.
    pub proof fn lemma_same_cells_same_blocks(
        &self,
        other: &Universe,
        blocks: Seq<u32>,
        other_blocks: Seq<u32>,
    )
        requires
            self@ == other@,
            packs(blocks, self@.packed_bits()),
            packs(other_blocks, other@.packed_bits()),
        ensures
            blocks == other_blocks,
    {
        lemma_packs_unique(blocks, other_blocks, self@.packed_bits());
    }

    /// The board as text: a line of glyphs for each row.
    pub fn render(&self) -> (text: String)
        requires
            self.wf(),
        ensures
            text@ == self@.rendered(),
    {
        let height = self.height;
        let width = self.width;
        let mut text = String::new();
        let mut idx = 0_usize;
        assert(0 * width == 0 && 0 * (width + 1) == 0) by (nonlinear_arith);
        for row in 0..height
            invariant
                self.wf(),
                height == self.height,
                width == self.width,
                idx == row * width,
                text@.len() == row * (width + 1),
                forall|i: int| 0 <= i < text@.len() ==> #[trigger] text@[i] == self@.rendered()[i],
        {
            for column in 0..width
                invariant
                    self.wf(),
                    height == self.height,
                    width == self.width,
                    row < height,
                    idx == row * width + column,
                    text@.len() == row * (width + 1) + column,
                    forall|i: int|
                        0 <= i < text@.len() ==> #[trigger] text@[i] == self@.rendered()[i],
            {
                proof {
                    lemma_position_in_grid(
                        width as int,
                        height as int,
                        row as int,
                        column as int,
                    );
                    lemma_position_in_grid(
                        width + 1,
                        height as int,
                        row as int,
                        column as int,
                    );
                    lemma_position_splits(width + 1, row as int, column as int);
                }
                let symbol = if bit_at(&self.cells, idx) {
                    '\u{25FC}'
                } else {
                    '\u{25FB}'
                };
                idx += 1_usize;
                text.push(symbol);
            }
            proof {
                lemma_position_in_grid(width + 1, height as int, row as int, width as int);
                lemma_position_splits(width + 1, row as int, width as int);
                assert(row * width + width == (row + 1) * width) by (nonlinear_arith);
                assert(row * (width + 1) + width + 1 == (row + 1) * (width + 1))
                    by (nonlinear_arith);
            }
            text.push('\n');
        }
        assert(text@ =~= self@.rendered());
        text
    }
}

} // verus!
