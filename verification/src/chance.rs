//! The random draw behind a random fill.

use rand::Rng;
use vstd::prelude::*;

verus! {

/// Draws an integer from `0..100` with `rand::thread_rng().gen_range`. The
/// draw differs from call to call; all that is claimed is the range that
/// `gen_range` documents. The generator panics where the system can give it
/// no seed, which no argument decides.
#[verifier::external_body]
pub(crate) fn draw_percent() -> (draw: i32)
    ensures
        0 <= draw < 100,
{
    rand::thread_rng().gen_range(0..100)
}

/// Whether a cell filled at random starts alive, given its draw from
/// `0..100`: 59 of the 100 draws give a live cell.
pub fn alive_from_draw(draw: i32) -> (alive: bool)
    ensures
        alive == (draw > 40),
{
    draw > 40
}

} // verus!
