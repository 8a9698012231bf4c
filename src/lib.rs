use vstd::prelude::*;

pub mod game;
pub mod map;

verus! {

/// One of the four grid directions a move can take.
#[derive(Clone, Copy, PartialEq, Eq, Structural, Debug)]
pub enum Direction {
    Up,
    Right,
    Down,
    Left,
}

impl Direction {
    /// Row delta of one step.
    pub open spec fn dy(self) -> int {
        match self {
            Direction::Up => -1,
            Direction::Down => 1,
            _ => 0,
        }
    }

    /// Column delta of one step.
    pub open spec fn dx(self) -> int {
        match self {
            Direction::Left => -1,
            Direction::Right => 1,
            _ => 0,
        }
    }

    /// The unit step `(dy, dx)` of this direction.
    pub fn get_vec2_move(&self) -> (r: (i32, i32))
        ensures
            r.0 == self.dy(),
            r.1 == self.dx(),
    {
        match self {
            Direction::Up => (-1, 0),
            Direction::Down => (1, 0),
            Direction::Left => (0, -1),
            Direction::Right => (0, 1),
        }
    }
}

/// Taking `n` steps from `(y, x)` towards `d` stays within `i32`.
pub open spec fn steps_fit(y: int, x: int, d: Direction, n: int) -> bool {
    &&& n == 1 ==> i32::MIN <= y + d.dy() <= i32::MAX && i32::MIN <= x + d.dx() <= i32::MAX
    &&& n == 2 ==> i32::MIN <= y + 2 * d.dy() <= i32::MAX && i32::MIN <= x + 2 * d.dx() <= i32::MAX
    &&& n == 3 ==> i32::MIN <= y + 3 * d.dy() <= i32::MAX && i32::MIN <= x + 3 * d.dx() <= i32::MAX
}

} // verus!
