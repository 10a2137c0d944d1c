//! Places and extents on the terminal canvas, in character cells.

use crate::util::Direction;
use vstd::prelude::*;

verus! {

/// A cell of the canvas, or of a window: column `x` and row `y`, from 0.
#[derive(Clone, Copy, Debug, PartialEq, Eq, Structural)]
pub struct Position {
    pub x: u16,
    pub y: u16,
}

/// An extent in cells.
#[derive(Clone, Copy, Debug, PartialEq, Eq, Structural)]
pub struct Size {
    pub width: u16,
    pub height: u16,
}

impl Default for Position {
    fn default() -> (position: Position)
        ensures
            position == (Position { x: 0, y: 0 }),
    {
        Position { x: 0, y: 0 }
    }
}

impl Default for Size {
    fn default() -> (size: Size)
        ensures
            size == (Size { width: 0, height: 0 }),
    {
        Size { width: 0, height: 0 }
    }
}

impl Position {
    /// The neighbouring cell in the given direction; at an edge of the
    /// coordinate range, the cell itself.
    pub open spec fn neighbour(self, direction: Direction) -> Position {
        match direction {
            Direction::Up => Position {
                x: self.x,
                y: if self.y == 0 { 0u16 } else { (self.y - 1) as u16 },
            },
            Direction::Down => Position {
                x: self.x,
                y: if self.y == u16::MAX { u16::MAX } else { (self.y + 1) as u16 },
            },
            Direction::Left => Position {
                x: if self.x == 0 { 0u16 } else { (self.x - 1) as u16 },
                y: self.y,
            },
            Direction::Right => Position {
                x: if self.x == u16::MAX { u16::MAX } else { (self.x + 1) as u16 },
                y: self.y,
            },
        }
    }

    /// The cell `other.x` columns to the right and `other.y` rows down.
    pub open spec fn shifted(self, other: Position) -> Position {
        Position { x: (self.x + other.x) as u16, y: (self.y + other.y) as u16 }
    }

    /// Moves one cell in the given direction, and stays at an edge of the
    /// coordinate range.
    pub fn move_toward(self, direction: Direction) -> (moved: Position)
        ensures
            moved == self.neighbour(direction),
    {
        match direction {
            Direction::Up => Position { x: self.x, y: self.y.saturating_sub(1) },
            Direction::Down => Position { x: self.x, y: self.y.saturating_add(1) },
            Direction::Left => Position { x: self.x.saturating_sub(1), y: self.y },
            Direction::Right => Position { x: self.x.saturating_add(1), y: self.y },
        }
    }

    /// The cell `x` columns to the right.
    pub fn offset_x(self, x: u16) -> (moved: Position)
        requires
            self.x + x <= u16::MAX,
        ensures
            moved == (Position { x: (self.x + x) as u16, y: self.y }),
    {
        Position { x: self.x + x, y: self.y }
    }

    /// The cell `y` rows down.
    pub fn offset_y(self, y: u16) -> (moved: Position)
        requires
            self.y + y <= u16::MAX,
        ensures
            moved == (Position { x: self.x, y: (self.y + y) as u16 }),
    {
        Position { x: self.x, y: self.y + y }
    }

    /// The cell `other.x` columns to the right and `other.y` rows down: a
    /// place inside a window at `self`, as a place on the canvas.
    pub fn offset(self, other: Position) -> (moved: Position)
        requires
            self.x + other.x <= u16::MAX,
            self.y + other.y <= u16::MAX,
        ensures
            moved == self.shifted(other),
    {
        self.offset_x(other.x).offset_y(other.y)
    }
}

} // verus!
