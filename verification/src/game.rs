//! A game in progress: the board, the cursor of the player and the decisions
//! that a key press leads to. Painting the result is left to the caller.

use vstd::prelude::*;
use rand::rngs::StdRng;
use crate::board::Board;
use crate::cell::Cell;
use crate::chance::Probability;
use crate::cursor::{move_cursor, stepped, Bounds, Direction, Position};
use crate::grid::Grid;
use crate::layout::{lemma_offset_ordered, lemma_position_of, offset};
use crate::outcome::{BoardError, FlagOutcome, RevealOutcome};

verus! {

/// The width of the board of a new game.
pub const WIDTH: usize = 10;

/// The height of the board of a new game.
pub const HEIGHT: usize = 10;

/// The keys that the game tells apart.
#[derive(Clone, Copy, Debug, PartialEq, Eq, Structural)]
pub enum Key {
    W,
    A,
    S,
    D,
    R,
    F,
    /// Any key that the game has no use for.
    Other,
}

/// What the player asks for.
#[derive(Clone, Copy, Debug, PartialEq, Eq, Structural)]
pub enum Command {
    /// Move the cursor by one cell.
    Move(Direction),
    /// Reveal the cell under the cursor.
    Reveal,
    /// Set or remove the flag on the cell under the cursor.
    ToggleFlag,
}

/// What a key press did, for the caller to paint.
#[derive(Clone, Copy, Debug, PartialEq, Eq, Structural)]
pub enum Effect {
    /// The cursor went from the first position to the second; at an edge the
    /// two are the same.
    Moved(Position, Position),
    /// The cell under the cursor was asked to reveal itself.
    Revealed(RevealOutcome),
    /// The flag of the cell under the cursor was toggled.
    Flagged(FlagOutcome),
    /// The key means nothing to the game.
    Ignored,
}

/// What a tile shows.
#[derive(Clone, Copy, Debug, PartialEq, Eq, Structural)]
pub enum Face {
    /// A cell that has not been revealed: nothing tells whether it holds a
    /// mine.
    Covered,
    /// A revealed cell, with the count of the mines around it.
    Open(usize),
    /// A cell that the player has flagged.
    Flag,
}

/// How one position of the board is to be painted.
#[derive(Clone, Copy, Debug, PartialEq, Eq, Structural)]
pub struct Tile {
    pub position: Position,
    /// Whether the cursor stands on the tile.
    pub selected: bool,
    pub face: Face,
}

impl Key {
    /// The command that the key is bound to: `W`, `S`, `A` and `D` move the
    /// cursor up, down, left and right, `R` reveals and `F` flags.
    pub open spec fn bound_to(self) -> Option<Command> {
        match self {
            Key::W => Some(Command::Move(Direction::Up)),
            Key::S => Some(Command::Move(Direction::Down)),
            Key::A => Some(Command::Move(Direction::Left)),
            Key::D => Some(Command::Move(Direction::Right)),
            Key::R => Some(Command::Reveal),
            Key::F => Some(Command::ToggleFlag),
            Key::Other => None,
        }
    }

    /// The command that the key is bound to, if any.
    pub fn command(self) -> (command: Option<Command>)
        ensures
            command == self.bound_to(),
        no_unwind
    {
        match self {
            Key::W => Some(Command::Move(Direction::Up)),
            Key::S => Some(Command::Move(Direction::Down)),
            Key::A => Some(Command::Move(Direction::Left)),
            Key::D => Some(Command::Move(Direction::Right)),
            Key::R => Some(Command::Reveal),
            Key::F => Some(Command::ToggleFlag),
            Key::Other => None,
        }
    }
}

/// A game as contracts speak of it.
pub struct Session {
    pub grid: Grid,
    pub cursor: Position,
    /// Whether anything has changed since the board was last painted.
    pub needs_redraw: bool,
}

impl Session {
    /// The grid is well formed and the cursor stands on one of its positions.
    pub open spec fn wf(self) -> bool {
        self.grid.wf() && self.grid.in_bounds(self.cursor.x as int, self.cursor.y as int)
    }

    /// The dimensions of the grid.
    pub open spec fn bounds(self) -> Bounds {
        Bounds { width: self.grid.width as usize, height: self.grid.height as usize }
    }

    /// How position `(x, y)` is to be painted.
    pub open spec fn tile(self, x: int, y: int) -> Tile
        recommends
            self.grid.in_bounds(x, y),
    {
        Tile {
            position: Position { x: x as usize, y: y as usize },
            selected: self.cursor.x == x && self.cursor.y == y,
            face: match self.grid.cell(x, y) {
                Cell::Hidden | Cell::Mine => Face::Covered,
                Cell::Revealed => Face::Open(self.grid.adjacent_mines(x, y) as usize),
                Cell::Flagged | Cell::FlaggedMine => Face::Flag,
            },
        }
    }

    /// The game after the cursor was put on `(x, y)`.
    pub open spec fn after_move(self, to: Position) -> Session {
        Session { grid: self.grid, cursor: to, needs_redraw: true }
    }

    /// The game after the given command. A move takes the cursor one step
    /// within the bounds and always asks for the board to be painted again;
    /// a reveal or a flag acts on the cell under the cursor and asks for that
    /// only where the cell has changed.
    pub open spec fn after_command(self, command: Command) -> Session {
        let x = self.cursor.x as int;
        let y = self.cursor.y as int;
        match command {
            Command::Move(direction) => self.after_move(
                stepped(self.cursor, direction, self.bounds()),
            ),
            Command::Reveal => Session {
                grid: self.grid.after_reveal(x, y),
                cursor: self.cursor,
                needs_redraw: self.needs_redraw || self.grid.cell(x, y) is Hidden,
            },
            Command::ToggleFlag => Session {
                grid: self.grid.after_toggle(x, y),
                cursor: self.cursor,
                needs_redraw: self.needs_redraw || !(self.grid.cell(x, y) is Revealed),
            },
        }
    }

    /// What the given command does, as the caller is told.
    pub open spec fn effect_of_command(self, command: Command) -> Effect {
        let x = self.cursor.x as int;
        let y = self.cursor.y as int;
        match command {
            Command::Move(direction) => Effect::Moved(
                self.cursor,
                stepped(self.cursor, direction, self.bounds()),
            ),
            Command::Reveal => Effect::Revealed(self.grid.reveal_outcome(x, y)),
            Command::ToggleFlag => Effect::Flagged(self.grid.flag_outcome(x, y)),
        }
    }

    /// The game after the given key was pressed: a key that is bound to no
    /// command changes nothing.
    pub open spec fn after_key(self, key: Key) -> Session {
        match key.bound_to() {
            Some(command) => self.after_command(command),
            None => self,
        }
    }

    /// What pressing the given key does, as the caller is told.
    pub open spec fn effect_of_key(self, key: Key) -> Effect {
        match key.bound_to() {
            Some(command) => self.effect_of_command(command),
            None => Effect::Ignored,
        }
    }

    /// The game once the board has been painted: nothing is left to paint,
    /// and the grid and the cursor are as before.
    pub open spec fn painted(self) -> Session {
        Session { grid: self.grid, cursor: self.cursor, needs_redraw: false }
    }

    /// Whether `tiles` lists the tiles of the whole board, column by column:
    /// one tile for each position, that of `(x, y)` at place
    /// `offset(x, y, height)`.
    pub open spec fn painted_by(self, tiles: Seq<Tile>) -> bool {
        &&& tiles.len() == self.grid.width * self.grid.height
        &&& forall|x: int, y: int|
            self.grid.in_bounds(x, y) ==> tiles[#[trigger] offset(x, y, self.grid.height as int)]
                == self.tile(x, y)
    }

    /// Only one list paints a game: two lists of the tiles of the whole board
    /// are the same list.
    pub proof fn lemma_painted_by_one(self, first: Seq<Tile>, second: Seq<Tile>)
        requires
            self.painted_by(first),
            self.painted_by(second),
        ensures
            first == second,
    {
        assert forall|k: int| 0 <= k < first.len() implies first[k] == second[k] by {
            let p = lemma_position_of(k, self.grid.width as int, self.grid.height as int);
            assert(self.grid.in_bounds(p.0, p.1));
        }
        assert(first =~= second);
    }
}

/// A game in progress.
#[derive(Debug)]
pub struct State {
    board: Board,
    cursor: Position,
    needs_redraw: bool,
}

impl View for State {
    type V = Session;

    closed spec fn view(&self) -> Session {
        Session { grid: self.board@, cursor: self.cursor, needs_redraw: self.needs_redraw }
    }
}

impl Clone for State {
    /// A second game in the same state.
    fn clone(&self) -> (copy: State)
        ensures
            copy@ == self@,
    {
        proof {
            use_type_invariant(self);
        }
        State { board: self.board.clone(), cursor: self.cursor, needs_redraw: self.needs_redraw }
    }
}

impl State {
    #[verifier::type_invariant]
    spec fn cursor_on_board(self) -> bool {
        self.board@.in_bounds(self.cursor.x as int, self.cursor.y as int)
    }

    /// A new game: a board of `WIDTH` by `HEIGHT` hidden cells, each of which
    /// holds a mine with a chance of one in four, drawn from the generator;
    /// the cursor in the corner `(0, 0)`; and the board yet to be painted.
    pub fn new(rng: &mut StdRng) -> (state: State)
        ensures
            state@.wf(),
            state@.grid.width == WIDTH,
            state@.grid.height == HEIGHT,
            state@.grid.untouched(),
            state@.cursor == (Position { x: 0, y: 0 }),
            state@.needs_redraw,
    {
        let chance = Probability::new(1, 4).unwrap();
        let board = Board::generate(WIDTH, HEIGHT, chance, rng);
        State { board, cursor: Position { x: 0, y: 0 }, needs_redraw: true }
    }

    /// A game on the given board, with the cursor in the corner `(0, 0)` and
    /// the board yet to be painted; `None` where the board has no cell for
    /// the cursor to stand on.
    pub fn with_board(board: Board) -> (result: Option<State>)
        ensures
            result is Some <==> board@.width > 0 && board@.height > 0,
            result matches Some(state) ==> state@.wf() && state@ == (Session {
                grid: board@,
                cursor: Position { x: 0, y: 0 },
                needs_redraw: true,
            }),
    {
        proof {
            board.lemma_view_wf();
        }
        if board.width() == 0 || board.height() == 0 {
            None
        } else {
            Some(State { board, cursor: Position { x: 0, y: 0 }, needs_redraw: true })
        }
    }

    /// The board of the game.
    pub fn board(&self) -> (board: &Board)
        ensures
            board@ == self@.grid,
        no_unwind
    {
        &self.board
    }

    /// Where the cursor stands: always on the board.
    pub fn cursor(&self) -> (cursor: Position)
        ensures
            cursor == self@.cursor,
            self@.wf(),
        no_unwind
    {
        proof {
            use_type_invariant(self);
            self.board.lemma_view_wf();
        }
        self.cursor
    }

    /// Whether anything has changed since the board was last painted.
    pub fn needs_redraw(&self) -> (needed: bool)
        ensures
            needed == self@.needs_redraw,
        no_unwind
    {
        self.needs_redraw
    }

    /// Puts the cursor on `(x, y)` and asks for the board to be painted
    /// again, or fails with `OutOfBounds`, and changes nothing, where the
    /// board has no such position.
    pub fn update_pos(&mut self, new_x: usize, new_y: usize) -> (result: Result<(), BoardError>)
        ensures
            final(self)@.wf(),
            old(self)@.grid.in_bounds(new_x as int, new_y as int) ==> {
                &&& result == Ok::<(), BoardError>(())
                &&& final(self)@ == old(self)@.after_move(Position { x: new_x, y: new_y })
            },
            !old(self)@.grid.in_bounds(new_x as int, new_y as int) ==> {
                &&& result == Err::<(), BoardError>(BoardError::OutOfBounds)
                &&& final(self)@ == old(self)@
            },
        no_unwind
    {
        proof {
            use_type_invariant(&*self);
            self.board.lemma_view_wf();
        }
        if !self.board.in_bounds(new_x, new_y) {
            return Err(BoardError::OutOfBounds);
        }
        self.cursor = Position { x: new_x, y: new_y };
        self.needs_redraw = true;
        Ok(())
    }

    /// Acts on a key press and tells what it did. `W`, `S`, `A` and `D` move
    /// the cursor up, down, left and right, never over an edge; `R` reveals
    /// the cell under the cursor and `F` toggles its flag; any other key does
    /// nothing.
    pub fn key_down_event(&mut self, key: Key) -> (effect: Effect)
        ensures
            final(self)@.wf(),
            final(self)@ == old(self)@.after_key(key),
            effect == old(self)@.effect_of_key(key),
        no_unwind
    {
        proof {
            use_type_invariant(&*self);
            self.board.lemma_view_wf();
            self.board@.lemma_put_wf(
                self.cursor.x as int,
                self.cursor.y as int,
                self.board@.cell(self.cursor.x as int, self.cursor.y as int).revealed(),
            );
            self.board@.lemma_put_wf(
                self.cursor.x as int,
                self.cursor.y as int,
                self.board@.cell(self.cursor.x as int, self.cursor.y as int).toggled(),
            );
        }
        match key.command() {
            Some(Command::Move(direction)) => {
                let from = self.cursor;
                let to = move_cursor(from, direction, self.board.bounds());
                self.cursor = to;
                self.needs_redraw = true;
                Effect::Moved(from, to)
            },
            Some(Command::Reveal) => {
                let outcome = self.board.reveal_within(self.cursor.x, self.cursor.y);
                if let RevealOutcome::Safe(_) = outcome {
                    self.needs_redraw = true;
                }
                Effect::Revealed(outcome)
            },
            Some(Command::ToggleFlag) => {
                let outcome = self.board.toggle_within(self.cursor.x, self.cursor.y);
                match outcome {
                    FlagOutcome::AlreadyRevealed => {},
                    _ => {
                        self.needs_redraw = true;
                    },
                }
                Effect::Flagged(outcome)
            },
            None => Effect::Ignored,
        }
    }

    /// How `(x, y)`, a position of the board, is to be painted.
    fn tile_within(&self, x: usize, y: usize) -> (tile: Tile)
        requires
            self@.grid.in_bounds(x as int, y as int),
        ensures
            tile == self@.tile(x as int, y as int),
        no_unwind
    {
        let face = match self.board.cell_within(x, y) {
            Cell::Hidden | Cell::Mine => Face::Covered,
            Cell::Revealed => Face::Open(self.board.mines_around(x, y)),
            Cell::Flagged | Cell::FlaggedMine => Face::Flag,
        };
        let selected = x == self.cursor.x && y == self.cursor.y;
        Tile { position: Position { x, y }, selected, face }
    }

    /// How position `(x, y)` is to be painted: whether the cursor stands on
    /// it, and what it shows. A cell that is not revealed shows nothing of
    /// what it holds; a revealed cell shows the count of the mines around it.
    /// Where the board has no such position the result is `OutOfBounds`.
    pub fn draw_tile(&self, x: usize, y: usize) -> (result: Result<Tile, BoardError>)
        ensures
            self@.grid.in_bounds(x as int, y as int) ==> result == Ok::<Tile, BoardError>(
                self@.tile(x as int, y as int),
            ),
            !self@.grid.in_bounds(x as int, y as int) ==> result == Err::<Tile, BoardError>(
                BoardError::OutOfBounds,
            ),
        no_unwind
    {
        if !self.board.in_bounds(x, y) {
            return Err(BoardError::OutOfBounds);
        }
        Ok(self.tile_within(x, y))
    }

    /// Where anything has changed since the board was last painted, the tiles
    /// of the whole board, column by column, for the caller to paint. Where
    /// nothing has changed, `None`.
    ///
    /// The game itself stays as it is: it goes on asking to be painted until
    /// the caller reports with `painted` that the tiles have reached the
    /// screen. A caller whose painting fails halfway is so handed the tiles
    /// again the next time.
    pub fn draw(&self) -> (result: Option<Vec<Tile>>)
        ensures
            result is Some <==> self@.needs_redraw,
            result matches Some(tiles) ==> self@.painted_by(tiles@),
    {
        proof {
            use_type_invariant(self);
            self.board.lemma_view_wf();
        }
        if !self.needs_redraw {
            return None;
        }
        let width = self.board.width();
        let height = self.board.height();
        let mut tiles: Vec<Tile> = Vec::new();
        let mut i: usize = 0;
        while i < width
            invariant
                i <= width,
                width == self@.grid.width,
                height == self@.grid.height,
                tiles@.len() == offset(i as int, 0, height as int),
                forall|x: int, y: int|
                    0 <= x < i && 0 <= y < height ==> tiles@[#[trigger] offset(x, y, height as int)]
                        == self@.tile(x, y),
            decreases width - i,
        {
            let mut j: usize = 0;
            while j < height
                invariant
                    i < width,
                    j <= height,
                    width == self@.grid.width,
                    height == self@.grid.height,
                    tiles@.len() == offset(i as int, j as int, height as int),
                    forall|x: int, y: int|
                        0 <= y < height && (0 <= x < i || (x == i && y < j)) ==> tiles@[#[trigger] offset(
                            x,
                            y,
                            height as int,
                        )] == self@.tile(x, y),
                decreases height - j,
            {
                let tile = self.tile_within(i, j);
                proof {
                    assert forall|x: int, y: int|
                        0 <= y < height && (0 <= x < i || (x == i && y < j)) implies #[trigger] offset(
                        x,
                        y,
                        height as int,
                    ) < tiles@.len() by {
                        lemma_offset_ordered(x, y, i as int, j as int, height as int);
                    }
                }
                tiles.push(tile);
                j += 1;
            }
            assert(offset(i as int, height as int, height as int) == offset(
                i + 1,
                0,
                height as int,
            )) by (nonlinear_arith);
            i += 1;
        }
        proof {
            assert(offset(width as int, 0, height as int) == width * height);
        }
        Some(tiles)
    }

    /// Takes note that the board has been painted: the game asks for no
    /// further painting until something changes again. The board and the
    /// cursor stay as they are.
    pub fn painted(&mut self)
        ensures
            final(self)@.wf(),
            final(self)@ == old(self)@.painted(),
        no_unwind
    {
        proof {
            use_type_invariant(&*self);
            self.board.lemma_view_wf();
        }
        self.needs_redraw = false;
    }
}

} // verus!
