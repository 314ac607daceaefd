//! The block, the smallest still life: two by two live cells on a board that
//! is dead everywhere else.

use crate::grid::{census, next_state, Grid};
use crate::torus::{
    lemma_position_in_grid, lemma_position_joins, lemma_position_splits, lemma_wrap_back,
    lemma_wrap_inside, lemma_wrap_on, place_after, place_before,
};
use vstd::arithmetic::div_mod::lemma_mod_bound;
use vstd::prelude::*;

verus! {

/// Whether `place` is one of the two places of a ring of `m` places that start
/// at the remainder of `first`.
pub open spec fn in_pair(first: int, m: int, place: int) -> bool {
    place == first % m || place == place_after(first % m, m)
}

/// Whether the cell in row `r` and column `c` of a board of `height` by
/// `width` cells belongs to the block whose upper left cell `(row, column)`
/// names on the torus.
pub open spec fn in_block(
    width: int,
    height: int,
    row: int,
    column: int,
    r: int,
    c: int,
) -> bool {
    in_pair(row, height, r) && in_pair(column, width, c)
}

impl Grid {
    /// The board holds a block with its upper left cell at `(row, column)`
    /// and nothing else.
    pub open spec fn is_block(self, row: int, column: int) -> bool {
        &&& self.wf()
        &&& forall|position: int|
            0 <= position < self.cells.len() ==> #[trigger] self.cells[position] == in_block(
                self.width as int,
                self.height as int,
                row,
                column,
                position / (self.width as int),
                position % (self.width as int),
            )
    }
}

/// On a ring of at least three places, of a place and the two beside it at
/// most two lie in a pair of adjacent places; if the place itself does, then
/// exactly one of the two beside it does.
proof fn lemma_pair_beside(first: int, m: int, place: int)
    requires
        m >= 3,
        0 <= place < m,
    ensures
        census(in_pair(first, m, place_before(place, m))) + census(in_pair(first, m, place))
            + census(in_pair(first, m, place_after(place, m))) <= 2,
        in_pair(first, m, place) ==> census(in_pair(first, m, place_before(place, m))) + census(
            in_pair(first, m, place_after(place, m)),
        ) == 1,
{
    lemma_mod_bound(first, m);
}

/// The rule on a cell whose neighbourhood is cut out of a block: `here` and
/// the flags beside it say which of the three rows, and which of the three
/// columns, the block covers.
proof fn lemma_rule_on_block(
    above: bool,
    level: bool,
    below: bool,
    left: bool,
    middle: bool,
    right: bool,
)
    requires
        census(above) + census(level) + census(below) <= 2,
        census(left) + census(middle) + census(right) <= 2,
        level ==> census(above) + census(below) == 1,
        middle ==> census(left) + census(right) == 1,
    ensures
        next_state(
            level && middle,
            census(above && left) + census(above && middle) + census(above && right) + census(
                level && left,
            ) + census(level && right) + census(below && left) + census(below && middle) + census(
                below && right,
            ),
        ) == (level && middle),
{
}

impl Grid {
    /// On a board that holds a block and nothing else, a cell is alive just
    /// when its wrapped coordinates lie in the block.
    proof fn lemma_alive_on_block(self, row: int, column: int, r: int, c: int)
        requires
            self.is_block(row, column),
        ensures
            self.alive(r, c) == in_block(
                self.width as int,
                self.height as int,
                row,
                column,
                r % (self.height as int),
                c % (self.width as int),
            ),
    {
        let h = self.height as int;
        let w = self.width as int;
        lemma_mod_bound(r, h);
        lemma_mod_bound(c, w);
        lemma_position_in_grid(w, h, r % h, c % w);
        lemma_position_splits(w, r % h, c % w);
    }

    /// A block is a still life: on a board of at least three rows and three
    /// columns that holds a two by two block of live cells and no other live
    /// cell, the next generation is the board itself.
    pub proof fn lemma_block_is_still(self, row: int, column: int)
        requires
            self.is_block(row, column),
            self.width >= 3,
            self.height >= 3,
        ensures
            self.next_generation() == self,
    {
        let h = self.height as int;
        let w = self.width as int;
        assert forall|position: int| 0 <= position < self.cells.len() implies self.next_cell(
            position,
        ) == self.cells[position] by {
            let r = position / w;
            let c = position % w;
            lemma_position_joins(w, h, position);
            lemma_wrap_inside(r, h);
            lemma_wrap_inside(c, w);
            lemma_wrap_back(r, h);
            lemma_wrap_on(r, h);
            lemma_wrap_back(c, w);
            lemma_wrap_on(c, w);
            lemma_pair_beside(row, h, r);
            lemma_pair_beside(column, w, c);
            self.lemma_alive_on_block(row, column, r - 1, c - 1);
            self.lemma_alive_on_block(row, column, r - 1, c);
            self.lemma_alive_on_block(row, column, r - 1, c + 1);
            self.lemma_alive_on_block(row, column, r, c - 1);
            self.lemma_alive_on_block(row, column, r, c + 1);
            self.lemma_alive_on_block(row, column, r + 1, c - 1);
            self.lemma_alive_on_block(row, column, r + 1, c);
            self.lemma_alive_on_block(row, column, r + 1, c + 1);
            lemma_rule_on_block(
                in_pair(row, h, place_before(r, h)),
                in_pair(row, h, r),
                in_pair(row, h, place_after(r, h)),
                in_pair(column, w, place_before(c, w)),
                in_pair(column, w, c),
                in_pair(column, w, place_after(c, w)),
            );
        }
        assert(self.next_generation().cells =~= self.cells);
    }
}

} // verus!
