//! The strategies by which a board is filled.

use vstd::prelude::*;

verus! {

/// How the cells of a board are initialised.
#[allow(non_camel_case_types)]
#[derive(Debug)]
pub enum FillOptions {
    /// Every cell dead.
    AllDead,
    /// Every cell alive.
    AllAlive,
    /// Each cell alive or dead by an independent draw.
    Random,
    /// The cell at position `i` alive when `i` is a multiple of 2 or of 7.
    i2i7_Pattern,
}

impl FillOptions {
    /// The state that the strategy gives to the cell at `position`, where the
    /// strategy fixes it; `None` where chance decides.
    pub open spec fn cell(self, position: int) -> Option<bool> {
        match self {
            FillOptions::AllDead => Some(false),
            FillOptions::AllAlive => Some(true),
            FillOptions::Random => None,
            FillOptions::i2i7_Pattern => Some(position % 2 == 0 || position % 7 == 0),
        }
    }

    /// The strategy's name as text.
    pub open spec fn name_text(self) -> Seq<char> {
        match self {
            FillOptions::AllDead => "AllDead"@,
            FillOptions::AllAlive => "AllAlive"@,
            FillOptions::Random => "Random"@,
            FillOptions::i2i7_Pattern => "i2i7_Pattern"@,
        }
    }

    /// The strategy's name, as it is written in code.
    pub fn name(&self) -> (name: &'static str)
        ensures
            name@ == self.name_text(),
    {
        match self {
            FillOptions::AllDead => "AllDead",
            FillOptions::AllAlive => "AllAlive",
            FillOptions::Random => "Random",
            FillOptions::i2i7_Pattern => "i2i7_Pattern",
        }
    }
}

} // verus!
