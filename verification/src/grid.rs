//! Cells of the grid and the four directions of movement.

use vstd::prelude::*;

verus! {

/// A cell of the grid: `x` is the column, `y` the row; row 0 is the top row.
#[derive(Clone, Copy, Debug, PartialEq, Eq, Structural)]
pub struct Position {
    pub x: usize,
    pub y: usize,
}

/// One of the four directions in which the player can move.
#[derive(Clone, Copy, Debug, PartialEq, Eq, Structural)]
pub enum Direction {
    Up,
    Down,
    Left,
    Right,
}

/// The cell next to `from` in direction `toward`, or `None` where no such
/// coordinate exists.
pub open spec fn neighbour(from: Position, toward: Direction) -> Option<Position> {
    match toward {
        Direction::Up => if from.y == 0 {
            None
        } else {
            Some(Position { x: from.x, y: (from.y - 1) as usize })
        },
        Direction::Down => if from.y == usize::MAX {
            None
        } else {
            Some(Position { x: from.x, y: (from.y + 1) as usize })
        },
        Direction::Left => if from.x == 0 {
            None
        } else {
            Some(Position { x: (from.x - 1) as usize, y: from.y })
        },
        Direction::Right => if from.x == usize::MAX {
            None
        } else {
            Some(Position { x: (from.x + 1) as usize, y: from.y })
        },
    }
}

impl Position {
    /// The cell one step away in the given direction.
    pub fn step(self, toward: Direction) -> (next: Option<Position>)
        ensures
            next == neighbour(self, toward),
    {
        match toward {
            Direction::Up => if self.y == 0 {
                None
            } else {
                Some(Position { x: self.x, y: self.y - 1 })
            },
            Direction::Down => if self.y == usize::MAX {
                None
            } else {
                Some(Position { x: self.x, y: self.y + 1 })
            },
            Direction::Left => if self.x == 0 {
                None
            } else {
                Some(Position { x: self.x - 1, y: self.y })
            },
            Direction::Right => if self.x == usize::MAX {
                None
            } else {
                Some(Position { x: self.x + 1, y: self.y })
            },
        }
    }
}

} // verus!
