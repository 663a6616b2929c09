//! What the board reports back from an action of the player.

use vstd::prelude::*;

verus! {

/// The one way a board operation can fail.
#[derive(Clone, Copy, Debug, PartialEq, Eq, Structural)]
pub enum BoardError {
    /// The coordinate names no position of the grid.
    OutOfBounds,
}

/// What revealing a cell led to.
#[derive(Clone, Copy, Debug, PartialEq, Eq, Structural)]
pub enum RevealOutcome {
    /// The cell was hidden and empty and is now revealed; the number is the
    /// count of mines around it.
    Safe(usize),
    /// The cell holds a mine. The board is unchanged.
    MineHit,
    /// The cell had been revealed before. The board is unchanged.
    AlreadyRevealed,
    /// The cell carries a flag, which has to be removed first. The board is
    /// unchanged.
    Flagged,
}

/// What toggling the flag of a cell led to.
#[derive(Clone, Copy, Debug, PartialEq, Eq, Structural)]
pub enum FlagOutcome {
    /// The cell now carries a flag.
    Flagged,
    /// The flag was removed from the cell.
    Unflagged,
    /// The cell is revealed and takes no flag. The board is unchanged.
    AlreadyRevealed,
}

} // verus!
