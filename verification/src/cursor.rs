//! The cursor: the position that the player has selected, and how it moves.

use vstd::prelude::*;

verus! {

/// A position `(x, y)`: column `x`, row `y`.
#[derive(Clone, Copy, Debug, PartialEq, Eq, Structural)]
pub struct Position {
    pub x: usize,
    pub y: usize,
}

/// The dimensions of a grid.
#[derive(Clone, Copy, Debug, PartialEq, Eq, Structural)]
pub struct Bounds {
    pub width: usize,
    pub height: usize,
}

/// A direction in which the cursor moves by one cell. `Up` is towards row 0
/// and `Left` towards column 0.
#[derive(Clone, Copy, Debug, PartialEq, Eq, Structural)]
pub enum Direction {
    Up,
    Down,
    Left,
    Right,
}

impl Direction {
    /// The change of the column on one step in this direction.
    pub open spec fn dx(self) -> int {
        match self {
            Direction::Left => -1,
            Direction::Right => 1,
            _ => 0,
        }
    }

    /// The change of the row on one step in this direction.
    pub open spec fn dy(self) -> int {
        match self {
            Direction::Up => -1,
            Direction::Down => 1,
            _ => 0,
        }
    }
}

impl Bounds {
    /// Whether column `x`, row `y` lies within the bounds.
    pub open spec fn holds(self, x: int, y: int) -> bool {
        0 <= x < self.width && 0 <= y < self.height
    }

    /// Whether the position lies within the bounds.
    pub open spec fn contains(self, p: Position) -> bool {
        self.holds(p.x as int, p.y as int)
    }

    /// Whether the bounds hold any position at all.
    pub open spec fn inhabited(self) -> bool {
        self.width > 0 && self.height > 0
    }
}

/// The coordinate `v` brought into `0 ..= size - 1`: below the range it
/// becomes 0, above it `size - 1`. With no such coordinate (`size` is 0) the
/// result is 0.
pub open spec fn clamped(v: int, size: int) -> int {
    if v < 0 || size <= 0 {
        0
    } else if v >= size {
        size - 1
    } else {
        v
    }
}

/// The position one step from `current` in the given direction, held within
/// the bounds: at an edge the cursor stays where it is.
pub open spec fn stepped(current: Position, direction: Direction, bounds: Bounds) -> Position {
    Position {
        x: clamped(current.x + direction.dx(), bounds.width as int) as usize,
        y: clamped(current.y + direction.dy(), bounds.height as int) as usize,
    }
}

/// Brings a coordinate into `0 ..= size - 1`.
fn clamp(v: usize, size: usize) -> (c: usize)
    ensures
        c == clamped(v as int, size as int),
    no_unwind
{
    if size == 0 {
        0
    } else if v >= size {
        size - 1
    } else {
        v
    }
}

/// Moves the cursor by one cell in the given direction. The cursor never
/// leaves the bounds and never wraps round: a step over an edge leaves it at
/// the edge.
pub fn move_cursor(current: Position, direction: Direction, bounds: Bounds) -> (next: Position)
    ensures
        next == stepped(current, direction, bounds),
        bounds.inhabited() ==> bounds.contains(next),
    no_unwind
{
    let x = match direction {
        Direction::Left => if current.x == 0 {
            0
        } else {
            current.x - 1
        },
        Direction::Right => if current.x < bounds.width {
            current.x + 1
        } else {
            current.x
        },
        _ => current.x,
    };
    let y = match direction {
        Direction::Up => if current.y == 0 {
            0
        } else {
            current.y - 1
        },
        Direction::Down => if current.y < bounds.height {
            current.y + 1
        } else {
            current.y
        },
        _ => current.y,
    };
    Position { x: clamp(x, bounds.width), y: clamp(y, bounds.height) }
}

/// The position reached from `start` by taking the given steps one after the
/// other.
pub open spec fn walked(start: Position, steps: Seq<Direction>, bounds: Bounds) -> Position
    decreases steps.len(),
{
    if steps.len() == 0 {
        start
    } else {
        stepped(walked(start, steps.drop_last(), bounds), steps.last(), bounds)
    }
}

/// One step from a position within the bounds moves the cursor by exactly one
/// cell in the given direction, unless that cell would lie over an edge: then
/// the cursor stays where it is.
pub proof fn lemma_step_from_inside(current: Position, direction: Direction, bounds: Bounds)
    requires
        bounds.contains(current),
    ensures
        bounds.contains(stepped(current, direction, bounds)),
        bounds.holds(current.x + direction.dx(), current.y + direction.dy()) ==> {
            &&& stepped(current, direction, bounds).x == current.x + direction.dx()
            &&& stepped(current, direction, bounds).y == current.y + direction.dy()
        },
        !bounds.holds(current.x + direction.dx(), current.y + direction.dy()) ==> stepped(
            current,
            direction,
            bounds,
        ) == current,
{
}

/// However many steps are taken, in whatever directions and from whatever
/// start, the cursor ends within the bounds, provided that the bounds hold a
/// position at all and that at least one step is taken or the start lies
/// within them.
pub proof fn lemma_walk_stays_inside(start: Position, steps: Seq<Direction>, bounds: Bounds)
    requires
        bounds.inhabited(),
        steps.len() > 0 || bounds.contains(start),
    ensures
        bounds.contains(walked(start, steps, bounds)),
{
}

/// Steps over an edge are lost: once the cursor stands at an edge, any number
/// of further steps towards that edge leave it where it is.
pub proof fn lemma_walk_past_edge(start: Position, direction: Direction, n: nat, bounds: Bounds)
    requires
        bounds.contains(start),
        stepped(start, direction, bounds) == start,
    ensures
        walked(start, Seq::new(n, |i: int| direction), bounds) == start,
    decreases n,
{
    let steps = Seq::new(n, |i: int| direction);
    if n > 0 {
        lemma_walk_past_edge(start, direction, (n - 1) as nat, bounds);
        assert(steps.drop_last() =~= Seq::new((n - 1) as nat, |i: int| direction));
    }
}

} // verus!
