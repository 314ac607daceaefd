//! Arithmetic of a wrapped coordinate: remainders of neighbouring positions and
//! the row-major layout of a grid.

use vstd::arithmetic::div_mod::{
    lemma_fundamental_div_mod, lemma_fundamental_div_mod_converse, lemma_mod_bound,
};
use vstd::prelude::*;

verus! {

/// The place before `place` on a ring of `m` places, numbered from 0.
pub open spec fn place_before(place: int, m: int) -> int {
    if place == 0 {
        m - 1
    } else {
        place - 1
    }
}

/// The place after `place` on a ring of `m` places, numbered from 0.
pub open spec fn place_after(place: int, m: int) -> int {
    if place == m - 1 {
        0
    } else {
        place + 1
    }
}

/// Steps back from `place` on a ring of `places` places.
pub fn step_back(place: usize, places: usize) -> (before: usize)
    requires
        place < places,
    ensures
        before == place_before(place as int, places as int),
        before < places,
{
    if place == 0 {
        places - 1
    } else {
        place - 1
    }
}

/// Steps on from `place` on a ring of `places` places.
pub fn step_on(place: usize, places: usize) -> (after: usize)
    requires
        place < places,
    ensures
        after == place_after(place as int, places as int),
        after < places,
{
    if place == places - 1 {
        0
    } else {
        place + 1
    }
}

/// The remainder of a position one step back is the remainder of the
/// position, one step back around the ring of `m` places.
pub proof fn lemma_wrap_back(x: int, m: int)
    requires
        m > 0,
    ensures
        (x - 1) % m == place_before(x % m, m),
{
    lemma_fundamental_div_mod(x, m);
    lemma_mod_bound(x, m);
    let q = x / m;
    let r = x % m;
    if r == 0 {
        assert(x - 1 == (q - 1) * m + (m - 1)) by (nonlinear_arith)
            requires
                x == m * q + r,
                r == 0,
        ;
        lemma_fundamental_div_mod_converse(x - 1, m, q - 1, m - 1);
    } else {
        assert(x - 1 == q * m + (r - 1)) by (nonlinear_arith)
            requires
                x == m * q + r,
        ;
        lemma_fundamental_div_mod_converse(x - 1, m, q, r - 1);
    }
}

/// The remainder of a position one step on is the remainder of the position,
/// one step on around the ring of `m` places.
pub proof fn lemma_wrap_on(x: int, m: int)
    requires
        m > 0,
    ensures
        (x + 1) % m == place_after(x % m, m),
{
    lemma_fundamental_div_mod(x, m);
    lemma_mod_bound(x, m);
    let q = x / m;
    let r = x % m;
    if r == m - 1 {
        assert(x + 1 == (q + 1) * m + 0) by (nonlinear_arith)
            requires
                x == m * q + r,
                r == m - 1,
        ;
        lemma_fundamental_div_mod_converse(x + 1, m, q + 1, 0);
    } else {
        assert(x + 1 == q * m + (r + 1)) by (nonlinear_arith)
            requires
                x == m * q + r,
        ;
        lemma_fundamental_div_mod_converse(x + 1, m, q, r + 1);
    }
}

/// A position inside the ring is its own remainder.
pub proof fn lemma_wrap_inside(x: int, m: int)
    requires
        0 <= x < m,
    ensures
        x % m == x,
{
    lemma_fundamental_div_mod_converse(x, m, 0, x);
}

/// In a row-major layout with rows of `width` cells, the cell in row `row` and
/// column `column` of a grid of `height` rows lies inside the grid.
pub proof fn lemma_position_in_grid(width: int, height: int, row: int, column: int)
    requires
        0 <= row < height,
        0 <= column < width,
    ensures
        0 <= row * width + column < height * width,
        row * width + column < width * height,
{
    assert(row * width + column < height * width && 0 <= row * width && height * width == width
        * height) by (nonlinear_arith)
        requires
            0 <= row < height,
            0 <= column < width,
    ;
}

/// A row-major position determines its row and its column.
pub proof fn lemma_position_splits(width: int, row: int, column: int)
    requires
        0 <= column < width,
    ensures
        (row * width + column) / width == row,
        (row * width + column) % width == column,
{
    lemma_fundamental_div_mod_converse(row * width + column, width, row, column);
}

/// Every position of a row-major layout is that of its row and column.
pub proof fn lemma_position_joins(width: int, height: int, position: int)
    requires
        0 < width,
        0 <= position < width * height,
    ensures
        position == (position / width) * width + position % width,
        0 <= position / width < height,
        0 <= position % width < width,
{
    lemma_fundamental_div_mod(position, width);
    lemma_mod_bound(position, width);
    let q = position / width;
    let r = position % width;
    assert(q * width == width * q && 0 <= q < height) by (nonlinear_arith)
        requires
            position == width * q + r,
            0 <= r < width,
            0 <= position < width * height,
    ;
}

} // verus!
