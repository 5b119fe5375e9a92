//! Grid coordinates and the eight compass directions to adjacent cells.

use vstd::prelude::*;

verus! {

/// One of the eight compass directions from a cell to an adjacent cell.
#[derive(Clone, Copy)]
pub enum Direction {
    N,
    S,
    E,
    W,
    NE,
    NW,
    SE,
    SW,
}

impl Direction {
    /// Horizontal displacement of one step in this direction.
    pub open spec fn dx(self) -> int {
        match self {
            Direction::N => 0,
            Direction::S => 0,
            Direction::E => 1,
            Direction::W => -1,
            Direction::NE => 1,
            Direction::NW => -1,
            Direction::SE => 1,
            Direction::SW => -1,
        }
    }

    /// Vertical displacement of one step in this direction. `y` grows
    /// southward, so north is `-1`.
    pub open spec fn dy(self) -> int {
        match self {
            Direction::N => -1,
            Direction::S => 1,
            Direction::E => 0,
            Direction::W => 0,
            Direction::NE => -1,
            Direction::NW => -1,
            Direction::SE => 1,
            Direction::SW => 1,
        }
    }
}

/// A grid position. `x` runs from west to east, `y` from north to south;
/// the grid owns the bounds, a `Coord` is just the pair.
#[derive(Clone, Copy, PartialEq, Eq, Structural)]
pub struct Coord {
    pub x: usize,
    pub y: usize,
}

impl Coord {
    pub fn new(x: usize, y: usize) -> (c: Self)
        ensures
            c.x == x,
            c.y == y,
    {
        Coord { x, y }
    }

    /// The row one step north. Callers guarantee the step stays on the grid,
    /// so the subtraction cannot underflow.
    pub fn north(&self) -> (r: usize)
        requires
            self.y >= 1,
        ensures
            r == self.y - 1,
    {
        self.y - 1
    }

    pub fn south(&self) -> (r: usize)
        requires
            self.y + 1 <= usize::MAX,
        ensures
            r == self.y + 1,
    {
        self.y + 1
    }

    pub fn east(&self) -> (r: usize)
        requires
            self.x + 1 <= usize::MAX,
        ensures
            r == self.x + 1,
    {
        self.x + 1
    }

    /// The column one step west. Callers guarantee the step stays on the
    /// grid, so the subtraction cannot underflow.
    pub fn west(&self) -> (r: usize)
        requires
            self.x >= 1,
        ensures
            r == self.x - 1,
    {
        self.x - 1
    }

    /// The adjacent coordinate one step in `direction`.
    pub fn coord(&self, direction: Direction) -> (c: Self)
        requires
            0 <= self.x + direction.dx() <= usize::MAX,
            0 <= self.y + direction.dy() <= usize::MAX,
        ensures
            c.x == self.x + direction.dx(),
            c.y == self.y + direction.dy(),
    {
        match direction {
            Direction::N => Coord { x: self.x, y: self.north() },
            Direction::S => Coord { x: self.x, y: self.south() },
            Direction::E => Coord { x: self.east(), y: self.y },
            Direction::W => Coord { x: self.west(), y: self.y },
            Direction::NE => Coord { x: self.east(), y: self.north() },
            Direction::NW => Coord { x: self.west(), y: self.north() },
            Direction::SE => Coord { x: self.east(), y: self.south() },
            Direction::SW => Coord { x: self.west(), y: self.south() },
        }
    }
}

} // verus!
