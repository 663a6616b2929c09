//! The state of a single grid position and the rules that change it.

use vstd::prelude::*;

verus! {

/// The state of one position of the grid.
///
/// `Hidden` and `Mine` look the same to the player, and so do `Flagged` and
/// `FlaggedMine`; the second of each pair holds a mine.
#[derive(Clone, Copy, Debug, PartialEq, Eq, Structural)]
pub enum Cell {
    /// Not yet revealed; holds no mine.
    Hidden,
    /// Not yet revealed; holds a mine.
    Mine,
    /// Revealed and empty.
    Revealed,
    /// Marked by the player; holds no mine.
    Flagged,
    /// Marked by the player; holds a mine.
    FlaggedMine,
}

impl Cell {
    /// Whether the cell holds a mine, flagged or not.
    pub open spec fn has_mine(self) -> bool {
        self is Mine || self is FlaggedMine
    }

    /// Whether the player has marked the cell.
    pub open spec fn has_flag(self) -> bool {
        self is Flagged || self is FlaggedMine
    }

    /// The state of the cell after the player reveals it: a hidden empty cell
    /// opens, every other cell stays as it is.
    pub open spec fn revealed(self) -> Cell {
        match self {
            Cell::Hidden => Cell::Revealed,
            other => other,
        }
    }

    /// The state of the cell after the player toggles its flag: the flag is
    /// set or removed and the mine under it stays; a revealed cell takes no
    /// flag.
    pub open spec fn toggled(self) -> Cell {
        match self {
            Cell::Hidden => Cell::Flagged,
            Cell::Mine => Cell::FlaggedMine,
            Cell::Flagged => Cell::Hidden,
            Cell::FlaggedMine => Cell::Mine,
            Cell::Revealed => Cell::Revealed,
        }
    }

    /// Tells whether the cell holds a mine.
    pub fn is_mine(&self) -> (mine: bool)
        ensures
            mine == self.has_mine(),
        no_unwind
    {
        match self {
            Cell::Mine | Cell::FlaggedMine => true,
            _ => false,
        }
    }

    /// Tells whether the cell carries a flag.
    pub fn is_flagged(&self) -> (flagged: bool)
        ensures
            flagged == self.has_flag(),
        no_unwind
    {
        match self {
            Cell::Flagged | Cell::FlaggedMine => true,
            _ => false,
        }
    }
}

} // verus!
