//! Board geometry: grid cells and movement directions.

use vstd::prelude::*;

verus! {

/// One grid cell, addressed by signed coordinates so that a step off the
/// board (for example `x == -1`) is representable and can be classified
/// as a border collision.
#[derive(Clone, Copy, PartialEq, Eq, Structural, Debug)]
pub struct Location {
    pub x: i32,
    pub y: i32,
}

/// One of the four movement directions of the snake.
#[derive(Clone, Copy, PartialEq, Eq, Structural, Debug)]
pub enum MoveDirection {
    Up,
    Down,
    Left,
    Right,
}

impl MoveDirection {
    /// The direction antiparallel to `d`.
    pub open spec fn reverse_of(d: MoveDirection) -> MoveDirection {
        match d {
            MoveDirection::Up => MoveDirection::Down,
            MoveDirection::Down => MoveDirection::Up,
            MoveDirection::Left => MoveDirection::Right,
            MoveDirection::Right => MoveDirection::Left,
        }
    }

    /// True iff `self` and `other` are antiparallel (Up/Down or Left/Right).
    pub fn opposite(self, other: MoveDirection) -> (r: bool)
        ensures
            r == (other == MoveDirection::reverse_of(self)),
    {
        (self == MoveDirection::Up && other == MoveDirection::Down)
            || (self == MoveDirection::Down && other == MoveDirection::Up)
            || (self == MoveDirection::Left && other == MoveDirection::Right)
            || (self == MoveDirection::Right && other == MoveDirection::Left)
    }
}

/// The cell one step from `c` in direction `d` (Up decreases `y`,
/// Down increases `y`, Left decreases `x`, Right increases `x`).
pub open spec fn step_cell(c: Location, d: MoveDirection) -> Location {
    match d {
        MoveDirection::Up => Location { x: c.x, y: (c.y - 1) as i32 },
        MoveDirection::Down => Location { x: c.x, y: (c.y + 1) as i32 },
        MoveDirection::Left => Location { x: (c.x - 1) as i32, y: c.y },
        MoveDirection::Right => Location { x: (c.x + 1) as i32, y: c.y },
    }
}

/// True iff `c` lies on a `width` by `height` board.
pub open spec fn in_bounds(c: Location, width: u32, height: u32) -> bool {
    0 <= c.x < width && 0 <= c.y < height
}

} // verus!
