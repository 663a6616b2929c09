//! The mathematical model of a board: its dimensions and the state of every
//! position, with the rules of the game stated over them.

use vstd::prelude::*;
use crate::cell::Cell;
use crate::layout::offset;
use crate::outcome::{FlagOutcome, RevealOutcome};

verus! {

/// A grid of cells as contracts speak of it. Position `(x, y)` has
/// `0 <= x < width` and `0 <= y < height`.
pub struct Grid {
    pub width: nat,
    pub height: nat,
    pub cells: Map<(int, int), Cell>,
}

impl Grid {
    /// Whether `(x, y)` names a position of the grid.
    pub open spec fn in_bounds(self, x: int, y: int) -> bool {
        0 <= x < self.width && 0 <= y < self.height
    }

    /// The grid holds a cell at exactly the positions within its bounds.
    pub open spec fn wf(self) -> bool {
        forall|x: int, y: int| #[trigger] self.cells.dom().contains((x, y)) <==> self.in_bounds(x, y)
    }

    /// The state of the cell at `(x, y)`.
    pub open spec fn cell(self, x: int, y: int) -> Cell
        recommends
            self.in_bounds(x, y),
    {
        self.cells[(x, y)]
    }

    /// The grid with the cell at `(x, y)` replaced by `cell`.
    pub open spec fn put(self, x: int, y: int, cell: Cell) -> Grid
        recommends
            self.in_bounds(x, y),
    {
        Grid { width: self.width, height: self.height, cells: self.cells.insert((x, y), cell) }
    }

    /// 1 if `(x, y)` is a position of the grid that holds a mine, else 0. A
    /// coordinate off the grid counts as no mine.
    pub open spec fn mine_at(self, x: int, y: int) -> int {
        if self.in_bounds(x, y) && self.cell(x, y).has_mine() {
            1
        } else {
            0
        }
    }

    /// The number of mines on the up to eight positions around `(x, y)`. The
    /// position `(x, y)` itself is not counted.
    pub open spec fn adjacent_mines(self, x: int, y: int) -> int {
        self.mine_at(x - 1, y - 1) + self.mine_at(x - 1, y) + self.mine_at(x - 1, y + 1)
            + self.mine_at(x, y - 1) + self.mine_at(x, y + 1)
            + self.mine_at(x + 1, y - 1) + self.mine_at(x + 1, y) + self.mine_at(x + 1, y + 1)
    }

    /// The positions around `(x, y)` that hold a mine: those of the three by
    /// three block with `(x, y)` in its middle, without `(x, y)` itself, that
    /// lie on the grid and hold a mine.
    pub open spec fn mined_neighbours(self, x: int, y: int) -> Set<(int, int)> {
        Set::new(
            |p: (int, int)|
                {
                    &&& x - 1 <= p.0 <= x + 1
                    &&& y - 1 <= p.1 <= y + 1
                    &&& p != (x, y)
                    &&& self.in_bounds(p.0, p.1)
                    &&& self.cell(p.0, p.1).has_mine()
                },
        )
    }

    /// No cell of the grid has been revealed or flagged yet.
    pub open spec fn untouched(self) -> bool {
        forall|x: int, y: int|
            self.in_bounds(x, y) ==> (#[trigger] self.cell(x, y)) is Hidden || self.cell(x, y) is Mine
    }

    /// The grid holds no mine.
    pub open spec fn no_mines(self) -> bool {
        forall|x: int, y: int| self.in_bounds(x, y) ==> !(#[trigger] self.cell(x, y)).has_mine()
    }

    /// Every cell of the grid holds a mine.
    pub open spec fn all_mines(self) -> bool {
        forall|x: int, y: int| self.in_bounds(x, y) ==> (#[trigger] self.cell(x, y)).has_mine()
    }

    /// The grid after the player reveals `(x, y)`.
    pub open spec fn after_reveal(self, x: int, y: int) -> Grid
        recommends
            self.in_bounds(x, y),
    {
        self.put(x, y, self.cell(x, y).revealed())
    }

    /// What revealing `(x, y)` reports.
    pub open spec fn reveal_outcome(self, x: int, y: int) -> RevealOutcome
        recommends
            self.in_bounds(x, y),
    {
        match self.cell(x, y) {
            Cell::Hidden => RevealOutcome::Safe(self.adjacent_mines(x, y) as usize),
            Cell::Mine => RevealOutcome::MineHit,
            Cell::Revealed => RevealOutcome::AlreadyRevealed,
            Cell::Flagged | Cell::FlaggedMine => RevealOutcome::Flagged,
        }
    }

    /// The grid after the player toggles the flag at `(x, y)`.
    pub open spec fn after_toggle(self, x: int, y: int) -> Grid
        recommends
            self.in_bounds(x, y),
    {
        self.put(x, y, self.cell(x, y).toggled())
    }

    /// What toggling the flag at `(x, y)` reports.
    pub open spec fn flag_outcome(self, x: int, y: int) -> FlagOutcome
        recommends
            self.in_bounds(x, y),
    {
        match self.cell(x, y) {
            Cell::Hidden | Cell::Mine => FlagOutcome::Flagged,
            Cell::Flagged | Cell::FlaggedMine => FlagOutcome::Unflagged,
            Cell::Revealed => FlagOutcome::AlreadyRevealed,
        }
    }

    /// The grid of the given dimensions laid out from a list of mines, one
    /// entry for each position: `(x, y)` takes entry `x * height + y`, and
    /// holds a hidden mine where the entry is `true`, a hidden empty cell
    /// where it is `false`.
    pub open spec fn laid(width: nat, height: nat, mines: Seq<bool>) -> Grid {
        Grid {
            width,
            height,
            cells: Map::new(
                |p: (int, int)| 0 <= p.0 < width && 0 <= p.1 < height,
                |p: (int, int)|
                    if mines[offset(p.0, p.1, height as int)] {
                        Cell::Mine
                    } else {
                        Cell::Hidden
                    },
            ),
        }
    }

    /// Putting back the cell that a position already holds changes nothing.
    pub proof fn lemma_put_same(self, x: int, y: int)
        requires
            self.wf(),
            self.in_bounds(x, y),
        ensures
            self.put(x, y, self.cell(x, y)) == self,
    {
        assert(self.cells.dom().contains((x, y)));
        assert(self.cells.insert((x, y), self.cell(x, y)) =~= self.cells);
    }

    /// A grid stays well formed when one of its cells is replaced.
    pub proof fn lemma_put_wf(self, x: int, y: int, cell: Cell)
        requires
            self.wf(),
            self.in_bounds(x, y),
        ensures
            self.put(x, y, cell).wf(),
            self.put(x, y, cell).cell(x, y) == cell,
            forall|a: int, b: int|
                (a, b) != (x, y) ==> #[trigger] self.put(x, y, cell).cell(a, b) == self.cell(a, b),
    {
        let put = self.put(x, y, cell);
        assert forall|a: int, b: int| #[trigger]
            put.cells.dom().contains((a, b)) <==> put.in_bounds(a, b) by {
            assert(self.cells.dom().contains((a, b)) <==> self.in_bounds(a, b));
        }
    }

    /// The count of the mines around a position lies between 0 and 8.
    pub proof fn lemma_adjacent_mines_range(self, x: int, y: int)
        ensures
            0 <= self.adjacent_mines(x, y) <= 8,
    {
    }

    /// On a grid without mines the count is 0 around every position.
    pub proof fn lemma_no_mines_count_zero(self, x: int, y: int)
        requires
            self.no_mines(),
        ensures
            self.adjacent_mines(x, y) == 0,
    {
    }

    /// The count of the mines around a position does not depend on the cell
    /// at the position itself: whatever is put there, the count stays.
    pub proof fn lemma_count_ignores_centre(self, x: int, y: int, cell: Cell)
        ensures
            self.put(x, y, cell).adjacent_mines(x, y) == self.adjacent_mines(x, y),
    {
    }

    /// Two grids of the same dimensions that hold the same cells everywhere
    /// but at `(x, y)` have the same count of mines around `(x, y)`.
    pub proof fn lemma_count_same_around(self, other: Grid, x: int, y: int)
        requires
            self.width == other.width,
            self.height == other.height,
            forall|a: int, b: int|
                self.in_bounds(a, b) && (a, b) != (x, y) ==> #[trigger] self.cell(a, b)
                    == other.cell(a, b),
        ensures
            self.adjacent_mines(x, y) == other.adjacent_mines(x, y),
    {
        assert forall|a: int, b: int| (a, b) != (x, y) implies self.mine_at(a, b) == other.mine_at(
            a,
            b,
        ) by {
            if self.in_bounds(a, b) {
                assert(self.cell(a, b) == other.cell(a, b));
            }
        }
    }

    /// Toggling the flag of a cell twice brings the grid back to where it
    /// was: a flag set is removed again, a flag removed is set again, the
    /// mine under it stays, and a revealed cell is never changed.
    pub proof fn lemma_toggle_twice(self, x: int, y: int)
        requires
            self.wf(),
            self.in_bounds(x, y),
        ensures
            self.after_toggle(x, y).after_toggle(x, y) == self,
            self.after_toggle(x, y).cell(x, y) == self.cell(x, y).toggled(),
            self.cell(x, y).toggled().toggled() == self.cell(x, y),
    {
        let once = self.after_toggle(x, y);
        let twice = once.after_toggle(x, y);
        assert(self.cells.dom().contains((x, y)));
        assert(twice.cells =~= self.cells);
    }

    /// Revealing a revealed cell changes nothing, however often it is done:
    /// the grid is the same afterwards, and with it every cell and every count
    /// of mines, and the outcome says that the cell had been revealed.
    pub proof fn lemma_reveal_revealed(self, x: int, y: int)
        requires
            self.wf(),
            self.in_bounds(x, y),
            self.cell(x, y) is Revealed,
        ensures
            self.after_reveal(x, y) == self,
            self.reveal_outcome(x, y) == RevealOutcome::AlreadyRevealed,
    {
        self.lemma_put_same(x, y);
    }

    /// A second reveal of the same cell never changes what the first one
    /// left: a cell that the first reveal opened is reported as revealed
    /// already, and any other cell gives the outcome that it gave before.
    pub proof fn lemma_reveal_twice(self, x: int, y: int)
        requires
            self.wf(),
            self.in_bounds(x, y),
        ensures
            self.after_reveal(x, y).after_reveal(x, y) == self.after_reveal(x, y),
            self.cell(x, y) is Hidden ==> self.after_reveal(x, y).reveal_outcome(x, y)
                == RevealOutcome::AlreadyRevealed,
            !(self.cell(x, y) is Hidden) ==> self.after_reveal(x, y) == self,
    {
        let once = self.after_reveal(x, y);
        self.lemma_put_wf(x, y, self.cell(x, y).revealed());
        once.lemma_put_same(x, y);
        self.lemma_put_same(x, y);
    }

    /// Mines never move: revealing a cell or toggling its flag leaves every
    /// position of the grid with the mine, or without the mine, that it had;
    /// so the count of the mines around every position stays too.
    pub proof fn lemma_mines_stay(self, x: int, y: int, a: int, b: int)
        requires
            self.wf(),
            self.in_bounds(x, y),
        ensures
            self.after_reveal(x, y).mine_at(a, b) == self.mine_at(a, b),
            self.after_toggle(x, y).mine_at(a, b) == self.mine_at(a, b),
            self.after_reveal(x, y).adjacent_mines(a, b) == self.adjacent_mines(a, b),
            self.after_toggle(x, y).adjacent_mines(a, b) == self.adjacent_mines(a, b),
    {
        self.lemma_put_wf(x, y, self.cell(x, y).revealed());
        self.lemma_put_wf(x, y, self.cell(x, y).toggled());
    }

    /// A grid laid out from a list of mines is well formed and untouched, and
    /// holds a mine exactly where the list says so.
    pub proof fn lemma_laid(width: nat, height: nat, mines: Seq<bool>)
        ensures
            Grid::laid(width, height, mines).wf(),
            Grid::laid(width, height, mines).untouched(),
            forall|x: int, y: int|
                0 <= x < width && 0 <= y < height ==> (#[trigger] Grid::laid(
                    width,
                    height,
                    mines,
                ).cell(x, y)).has_mine() == mines[offset(x, y, height as int)],
    {
    }

    /// Adds position `p` to a set of positions if it holds a mine: the set
    /// grows by one exactly then.
    proof fn lemma_collect(self, found: Set<(int, int)>, p: (int, int)) -> (more: Set<(int, int)>)
        requires
            found.finite(),
            !found.contains(p),
        ensures
            more.finite(),
            more.len() == found.len() + self.mine_at(p.0, p.1),
            forall|q: (int, int)|
                more.contains(q) <==> found.contains(q) || (q == p && self.mine_at(p.0, p.1) == 1),
    {
        if self.mine_at(p.0, p.1) == 1 {
            found.insert(p)
        } else {
            found
        }
    }

    /// The count of the mines around a position is the number of the
    /// positions around it that lie on the grid and hold a mine.
    pub proof fn lemma_count_is_number_of_mined_neighbours(self, x: int, y: int)
        ensures
            self.mined_neighbours(x, y).finite(),
            self.mined_neighbours(x, y).len() == self.adjacent_mines(x, y),
    {
        let s0 = Set::<(int, int)>::empty();
        let s1 = self.lemma_collect(s0, (x - 1, y - 1));
        let s2 = self.lemma_collect(s1, (x - 1, y));
        let s3 = self.lemma_collect(s2, (x - 1, y + 1));
        let s4 = self.lemma_collect(s3, (x, y - 1));
        let s5 = self.lemma_collect(s4, (x, y + 1));
        let s6 = self.lemma_collect(s5, (x + 1, y - 1));
        let s7 = self.lemma_collect(s6, (x + 1, y));
        let s8 = self.lemma_collect(s7, (x + 1, y + 1));
        assert(s8 =~= self.mined_neighbours(x, y));
    }
}

} // verus!
