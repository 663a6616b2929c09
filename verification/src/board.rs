//! The board: the grid as it is stored, and the operations of the game.

use vstd::prelude::*;
use rand::rngs::StdRng;
use crate::cell::Cell;
use crate::chance::Probability;
use crate::cursor::Bounds;
use crate::grid::Grid;
use crate::layout::{lemma_offset_in_range, lemma_offset_injective, offset};
use crate::outcome::{BoardError, FlagOutcome, RevealOutcome};

verus! {

/// A grid of cells of fixed dimensions, with the cells kept column by column.
#[derive(Debug)]
pub struct Board {
    width: usize,
    height: usize,
    cells: Vec<Cell>,
}

impl View for Board {
    type V = Grid;

    closed spec fn view(&self) -> Grid {
        Grid {
            width: self.width as nat,
            height: self.height as nat,
            cells: Map::new(
                |p: (int, int)| 0 <= p.0 < self.width && 0 <= p.1 < self.height,
                |p: (int, int)| self.cells@[offset(p.0, p.1, self.height as int)],
            ),
        }
    }
}

impl Clone for Board {
    /// A second board with the same cells.
    fn clone(&self) -> (copy: Board)
        ensures
            copy@ == self@,
    {
        proof {
            use_type_invariant(self);
        }
        let mut cells: Vec<Cell> = Vec::new();
        let mut k: usize = 0;
        while k < self.cells.len()
            invariant
                k <= self.cells@.len(),
                cells@ == self.cells@.take(k as int),
            decreases self.cells@.len() - k,
        {
            cells.push(self.cells[k]);
            proof {
                assert(cells@ =~= self.cells@.take(k + 1));
            }
            k += 1;
        }
        proof {
            assert(cells@ =~= self.cells@);
        }
        Board { width: self.width, height: self.height, cells }
    }
}

impl Board {
    #[verifier::type_invariant]
    spec fn stored(self) -> bool {
        self.cells@.len() == self.width * self.height
    }

    /// The model of every board holds a cell at exactly the positions within
    /// its bounds.
    pub proof fn lemma_view_wf(&self)
        ensures
            self@.wf(),
    {
    }

    /// The board of the given dimensions laid out from a list of mines, one
    /// entry for each position, column by column: position `(x, y)` takes
    /// entry `x * height + y` and starts as a hidden mine where the entry is
    /// `true`, as a hidden empty cell where it is `false`. The result is
    /// `None` where the list has not exactly `width * height` entries.
    pub fn from_mines(width: usize, height: usize, mines: &[bool]) -> (result: Option<Board>)
        ensures
            result is Some <==> mines@.len() == width * height,
            result matches Some(board) ==> board@ == Grid::laid(
                width as nat,
                height as nat,
                mines@,
            ),
    {
        let total = match width.checked_mul(height) {
            Some(total) => total,
            None => {
                assert(mines@.len() == mines.len());
                return None;
            },
        };
        if mines.len() != total {
            return None;
        }
        let mut cells: Vec<Cell> = Vec::new();
        let mut k: usize = 0;
        while k < total
            invariant
                k <= total,
                total == mines@.len(),
                cells@.len() == k,
                forall|j: int|
                    0 <= j < k ==> cells@[j] == if mines@[j] {
                        Cell::Mine
                    } else {
                        Cell::Hidden
                    },
            decreases total - k,
        {
            cells.push(if mines[k] { Cell::Mine } else { Cell::Hidden });
            k += 1;
        }
        let board = Board { width, height, cells };
        proof {
            let laid = Grid::laid(width as nat, height as nat, mines@);
            assert forall|p: (int, int)| 0 <= p.0 < width && 0 <= p.1 < height implies
                #[trigger] board@.cells[p] == laid.cells[p] by {
                lemma_offset_in_range(p.0, p.1, width as int, height as int);
            }
            assert(board@.cells =~= laid.cells);
        }
        Some(board)
    }

    /// A board of the given dimensions on which every cell is hidden and
    /// holds a mine with the given probability, each cell drawn on its own
    /// from the generator, column by column.
    ///
    /// Which cells hold a mine is up to the generator, with two exceptions:
    /// with a probability of 0 no cell holds one, and with a probability of 1
    /// every cell does.
    pub fn generate(width: usize, height: usize, chance: Probability, rng: &mut StdRng) -> (board:
        Board)
        requires
            width * height <= usize::MAX,
        ensures
            board@.wf(),
            board@.width == width,
            board@.height == height,
            board@.untouched(),
            chance.is_never() ==> board@.no_mines(),
            chance.is_always() ==> board@.all_mines(),
    {
        let total = width * height;
        let mut mines: Vec<bool> = Vec::new();
        let mut k: usize = 0;
        while k < total
            invariant
                k <= total,
                mines@.len() == k,
                chance.is_never() ==> forall|j: int| 0 <= j < k ==> !mines@[j],
                chance.is_always() ==> forall|j: int| 0 <= j < k ==> mines@[j],
            decreases total - k,
        {
            let hit = chance.sample(rng);
            mines.push(hit);
            k += 1;
        }
        let board = Board::from_mines(width, height, mines.as_slice()).unwrap();
        proof {
            assert forall|x: int, y: int| board@.in_bounds(x, y) implies 0 <= #[trigger] offset(
                x,
                y,
                height as int,
            ) < total by {
                lemma_offset_in_range(x, y, width as int, height as int);
            }
        }
        board
    }

    /// The number of columns.
    pub fn width(&self) -> (width: usize)
        ensures
            width == self@.width,
        no_unwind
    {
        self.width
    }

    /// The number of rows.
    pub fn height(&self) -> (height: usize)
        ensures
            height == self@.height,
        no_unwind
    {
        self.height
    }

    /// The dimensions of the board.
    pub fn bounds(&self) -> (bounds: Bounds)
        ensures
            bounds.width == self@.width,
            bounds.height == self@.height,
        no_unwind
    {
        Bounds { width: self.width, height: self.height }
    }

    /// Tells whether `(x, y)` names a position of the board.
    pub fn in_bounds(&self, x: usize, y: usize) -> (inside: bool)
        ensures
            inside == self@.in_bounds(x as int, y as int),
        no_unwind
    {
        x < self.width && y < self.height
    }

    /// The entry of the list of cells that holds position `(x, y)`.
    fn offset(&self, x: usize, y: usize) -> (i: usize)
        requires
            x < self.width,
            y < self.height,
        ensures
            i == x * self.height + y,
            i < self.cells@.len(),
            self.cells@[i as int] == self@.cell(x as int, y as int),
        no_unwind
    {
        proof {
            use_type_invariant(self);
            lemma_offset_in_range(x as int, y as int, self.width as int, self.height as int);
            assert(self.cells@.len() == self.cells.len());
        }
        x * self.height + y
    }

    /// The state of the cell at `(x, y)`, a position of the board.
    pub(crate) fn cell_within(&self, x: usize, y: usize) -> (cell: Cell)
        requires
            self@.in_bounds(x as int, y as int),
        ensures
            cell == self@.cell(x as int, y as int),
        no_unwind
    {
        let i = self.offset(x, y);
        self.cells[i]
    }

    /// The state of the cell at `(x, y)`, or `OutOfBounds` where the board has
    /// no such position.
    pub fn cell_at(&self, x: usize, y: usize) -> (result: Result<Cell, BoardError>)
        ensures
            self@.in_bounds(x as int, y as int) ==> result == Ok::<Cell, BoardError>(
                self@.cell(x as int, y as int),
            ),
            !self@.in_bounds(x as int, y as int) ==> result == Err::<Cell, BoardError>(
                BoardError::OutOfBounds,
            ),
        no_unwind
    {
        if !self.in_bounds(x, y) {
            return Err(BoardError::OutOfBounds);
        }
        Ok(self.cell_within(x, y))
    }

    /// The mines among the first `n` positions of the three by three block
    /// around `(x, y)`, taken column by column; the centre counts as none.
    spec fn scanned(self, x: int, y: int, n: nat) -> int
        decreases n,
    {
        if n == 0 {
            0
        } else {
            let k = n - 1;
            let seen = self.scanned(x, y, k as nat);
            if k == 4 {
                seen
            } else {
                seen + self@.mine_at(x + k / 3 - 1, y + k % 3 - 1)
            }
        }
    }

    /// A scan of the whole block has counted the mines around its centre.
    proof fn lemma_scanned_all(self, x: int, y: int)
        ensures
            self.scanned(x, y, 9) == self@.adjacent_mines(x, y),
    {
        reveal_with_fuel(Board::scanned, 10);
    }

    /// The number of mines on the up to eight positions around `(x, y)`.
    pub(crate) fn mines_around(&self, x: usize, y: usize) -> (count: usize)
        requires
            self@.in_bounds(x as int, y as int),
        ensures
            count == self@.adjacent_mines(x as int, y as int),
            count <= 8,
        no_unwind
    {
        let mut count: usize = 0;
        let mut i: usize = 0;
        while i < 3
            invariant
                i <= 3,
                x < self.width,
                y < self.height,
                count == self.scanned(x as int, y as int, (3 * i) as nat),
                0 <= count <= 3 * i,
            decreases 3 - i,
        {
            let mut j: usize = 0;
            while j < 3
                invariant
                    i < 3,
                    j <= 3,
                    x < self.width,
                    y < self.height,
                    count == self.scanned(x as int, y as int, (3 * i + j) as nat),
                    0 <= count <= 3 * i + j,
                decreases 3 - j,
            {
                let centre = i == 1 && j == 1;
                let off_board = (i == 0 && x == 0) || (j == 0 && y == 0) || (i == 2 && x + 1
                    >= self.width) || (j == 2 && y + 1 >= self.height);
                proof {
                    let k = 3 * i + j;
                    assert(k / 3 == i && k % 3 == j);
                    assert(off_board == !self@.in_bounds(x + i - 1, y + j - 1));
                }
                if !centre && !off_board {
                    let at = self.offset(x + i - 1, y + j - 1);
                    if self.cells[at].is_mine() {
                        count += 1;
                    }
                }
                j += 1;
            }
            i += 1;
        }
        proof {
            self.lemma_scanned_all(x as int, y as int);
        }
        count
    }

    /// The number of mines on the up to eight positions around `(x, y)`, or
    /// `OutOfBounds` where the board has no position `(x, y)`. Neighbours that
    /// would lie off the board are left out of the count, and the cell at
    /// `(x, y)` itself is never counted.
    pub fn adjacent_mine_count(&self, x: usize, y: usize) -> (result: Result<usize, BoardError>)
        ensures
            self@.in_bounds(x as int, y as int) ==> result == Ok::<usize, BoardError>(
                self@.adjacent_mines(x as int, y as int) as usize,
            ),
            !self@.in_bounds(x as int, y as int) ==> result == Err::<usize, BoardError>(
                BoardError::OutOfBounds,
            ),
        no_unwind
    {
        if !self.in_bounds(x, y) {
            return Err(BoardError::OutOfBounds);
        }
        Ok(self.mines_around(x, y))
    }

    /// Replaces the cell at `(x, y)`.
    fn set_cell(&mut self, x: usize, y: usize, cell: Cell)
        requires
            old(self)@.in_bounds(x as int, y as int),
        ensures
            final(self)@ == old(self)@.put(x as int, y as int, cell),
        no_unwind
    {
        let i = self.offset(x, y);
        proof {
            use_type_invariant(&*self);
        }
        self.cells[i] = cell;
        proof {
            let height = self.height as int;
            assert forall|p: (int, int)| 0 <= p.0 < self.width && 0 <= p.1 < self.height implies
                #[trigger] self@.cells[p] == old(self)@.put(x as int, y as int, cell).cells[p] by {
                lemma_offset_in_range(p.0, p.1, self.width as int, height);
                if offset(p.0, p.1, height) == i {
                    lemma_offset_injective(p.0, p.1, x as int, y as int, height);
                }
            }
            assert(self@.cells =~= old(self)@.put(x as int, y as int, cell).cells);
        }
    }

    /// Reveals the cell at `(x, y)`, a position of the board.
    pub(crate) fn reveal_within(&mut self, x: usize, y: usize) -> (outcome: RevealOutcome)
        requires
            old(self)@.in_bounds(x as int, y as int),
        ensures
            outcome == old(self)@.reveal_outcome(x as int, y as int),
            final(self)@ == old(self)@.after_reveal(x as int, y as int),
        no_unwind
    {
        proof {
            self.lemma_view_wf();
            self@.lemma_put_same(x as int, y as int);
        }
        match self.cell_within(x, y) {
            Cell::Hidden => {
                let count = self.mines_around(x, y);
                self.set_cell(x, y, Cell::Revealed);
                RevealOutcome::Safe(count)
            },
            Cell::Mine => RevealOutcome::MineHit,
            Cell::Revealed => RevealOutcome::AlreadyRevealed,
            Cell::Flagged | Cell::FlaggedMine => RevealOutcome::Flagged,
        }
    }

    /// Reveals the cell at `(x, y)`. A hidden empty cell becomes revealed and
    /// the count of the mines around it is reported; a mine, a flagged cell
    /// and a cell revealed before are reported and left as they are. Where
    /// the board has no position `(x, y)` the result is `OutOfBounds` and the
    /// board is unchanged.
    pub fn reveal_cell(&mut self, x: usize, y: usize) -> (result: Result<RevealOutcome, BoardError>)
        ensures
            old(self)@.in_bounds(x as int, y as int) ==> {
                &&& result == Ok::<RevealOutcome, BoardError>(
                    old(self)@.reveal_outcome(x as int, y as int),
                )
                &&& final(self)@ == old(self)@.after_reveal(x as int, y as int)
            },
            !old(self)@.in_bounds(x as int, y as int) ==> {
                &&& result == Err::<RevealOutcome, BoardError>(BoardError::OutOfBounds)
                &&& final(self)@ == old(self)@
            },
        no_unwind
    {
        if !self.in_bounds(x, y) {
            return Err(BoardError::OutOfBounds);
        }
        Ok(self.reveal_within(x, y))
    }

    /// Toggles the flag of the cell at `(x, y)`, a position of the board.
    pub(crate) fn toggle_within(&mut self, x: usize, y: usize) -> (outcome: FlagOutcome)
        requires
            old(self)@.in_bounds(x as int, y as int),
        ensures
            outcome == old(self)@.flag_outcome(x as int, y as int),
            final(self)@ == old(self)@.after_toggle(x as int, y as int),
        no_unwind
    {
        proof {
            self.lemma_view_wf();
            self@.lemma_put_same(x as int, y as int);
        }
        match self.cell_within(x, y) {
            Cell::Hidden => {
                self.set_cell(x, y, Cell::Flagged);
                FlagOutcome::Flagged
            },
            Cell::Mine => {
                self.set_cell(x, y, Cell::FlaggedMine);
                FlagOutcome::Flagged
            },
            Cell::Flagged => {
                self.set_cell(x, y, Cell::Hidden);
                FlagOutcome::Unflagged
            },
            Cell::FlaggedMine => {
                self.set_cell(x, y, Cell::Mine);
                FlagOutcome::Unflagged
            },
            Cell::Revealed => FlagOutcome::AlreadyRevealed,
        }
    }

    /// Sets or removes the flag on the cell at `(x, y)`; the mine under a
    /// flag stays where it is. A revealed cell takes no flag and is left as it
    /// is. Where the board has no position `(x, y)` the result is
    /// `OutOfBounds` and the board is unchanged.
    pub fn toggle_flag(&mut self, x: usize, y: usize) -> (result: Result<FlagOutcome, BoardError>)
        ensures
            old(self)@.in_bounds(x as int, y as int) ==> {
                &&& result == Ok::<FlagOutcome, BoardError>(
                    old(self)@.flag_outcome(x as int, y as int),
                )
                &&& final(self)@ == old(self)@.after_toggle(x as int, y as int)
            },
            !old(self)@.in_bounds(x as int, y as int) ==> {
                &&& result == Err::<FlagOutcome, BoardError>(BoardError::OutOfBounds)
                &&& final(self)@ == old(self)@
            },
        no_unwind
    {
        if !self.in_bounds(x, y) {
            return Err(BoardError::OutOfBounds);
        }
        Ok(self.toggle_within(x, y))
    }
}

} // verus!
