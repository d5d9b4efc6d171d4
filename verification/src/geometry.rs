//! Positions on the grid and the four movement directions.

use vstd::prelude::*;
use crate::board::Board;
use crate::rng::random_in_range;

verus! {

/// How far a draw with offset `offset` keeps away from the edge on an axis
/// of width `width`: the offset itself, clamped to half the width.
pub open spec fn axis_min(offset: int, width: int) -> int {
    if offset < width / 2 {
        offset
    } else {
        width / 2
    }
}

/// A position on the grid.  Coordinates are signed so that a step can leave
/// the board; whether a point is still on the board is checked separately.
#[derive(Debug, Clone, Copy, PartialEq, Eq, Structural)]
pub struct Point {
    pub x: i32,
    pub y: i32,
}

/// One of the four directions the snake can head in.
#[derive(Debug, Clone, Copy, PartialEq, Eq, Structural)]
pub enum Direction {
    Left,
    Right,
    Up,
    Down,
}

/// The point one step away from `p` in direction `d`.  The coordinate
/// arithmetic wraps in the (excluded by callers) overflow case.
pub open spec fn step_point(p: Point, d: Direction) -> Point {
    match d {
        Direction::Right => Point { x: (p.x + 1) as i32, y: p.y },
        Direction::Left => Point { x: (p.x - 1) as i32, y: p.y },
        Direction::Down => Point { x: p.x, y: (p.y + 1) as i32 },
        Direction::Up => Point { x: p.x, y: (p.y - 1) as i32 },
    }
}

/// True when stepping from `p` in direction `d` stays within `i32`.
pub open spec fn step_in_range(p: Point, d: Direction) -> bool {
    match d {
        Direction::Right => p.x < i32::MAX,
        Direction::Left => p.x > i32::MIN,
        Direction::Down => p.y < i32::MAX,
        Direction::Up => p.y > i32::MIN,
    }
}

impl Point {
    pub fn new(x: i32, y: i32) -> (p: Point)
        ensures
            p == (Point { x, y }),
    {
        Point { x, y }
    }

    pub fn move_right(p: Point) -> (r: Point)
        requires
            p.x < i32::MAX,
        ensures
            r == step_point(p, Direction::Right),
    {
        Point { x: p.x + 1, y: p.y }
    }

    pub fn move_left(p: Point) -> (r: Point)
        requires
            p.x > i32::MIN,
        ensures
            r == step_point(p, Direction::Left),
    {
        Point { x: p.x - 1, y: p.y }
    }

    pub fn move_down(p: Point) -> (r: Point)
        requires
            p.y < i32::MAX,
        ensures
            r == step_point(p, Direction::Down),
    {
        Point { x: p.x, y: p.y + 1 }
    }

    pub fn move_up(p: Point) -> (r: Point)
        requires
            p.y > i32::MIN,
        ensures
            r == step_point(p, Direction::Up),
    {
        Point { x: p.x, y: p.y - 1 }
    }

    /// A uniformly random point of the board's rectangle shrunk symmetrically
    /// by `offset` on each axis, the offset clamped to half the dimension so
    /// that large offsets degrade toward the board's center.  The
    /// precondition asks exactly that the shrunk rectangle is non-empty.
    pub fn get_random_with_offset(board: &Board, offset: usize) -> (p: Point)
        requires
            board.wf(),
            2 * axis_min(offset as int, board.spec_x_width() as int)
                < board.spec_x_width() as int,
            2 * axis_min(offset as int, board.spec_y_width() as int)
                < board.spec_y_width() as int,
        ensures
            axis_min(offset as int, board.spec_x_width() as int) <= p.x as int,
            p.x as int + axis_min(offset as int, board.spec_x_width() as int)
                < board.spec_x_width(),
            axis_min(offset as int, board.spec_y_width() as int) <= p.y as int,
            p.y as int + axis_min(offset as int, board.spec_y_width() as int)
                < board.spec_y_width(),
            board.contains(p),
            offset as int <= board.spec_x_width() as int / 2 ==> offset <= p.x as int
                && p.x as int + offset < board.spec_x_width(),
            offset as int <= board.spec_y_width() as int / 2 ==> offset <= p.y as int
                && p.y as int + offset < board.spec_y_width(),
    {
        let w = board.get_x_width();
        let h = board.get_y_width();
        let x_half: usize = w / 2;
        let x_min: usize = if offset < x_half {
            offset
        } else {
            x_half
        };
        let y_half: usize = h / 2;
        let y_min: usize = if offset < y_half {
            offset
        } else {
            y_half
        };
        let x: usize = random_in_range(x_min, w - x_min);
        let y: usize = random_in_range(y_min, h - y_min);
        Point { x: x as i32, y: y as i32 }
    }
}

impl Direction {
    /// The direction pointing the opposite way.
    pub open spec fn spec_opposite(self) -> Direction {
        match self {
            Direction::Left => Direction::Right,
            Direction::Right => Direction::Left,
            Direction::Up => Direction::Down,
            Direction::Down => Direction::Up,
        }
    }

    /// True iff `other` points the opposite way from `self`; the front end
    /// uses this to filter out reversal moves.
    pub fn is_opposite(self, other: Direction) -> (r: bool)
        ensures
            r == (other == self.spec_opposite()),
    {
        match (self, other) {
            (Direction::Left, Direction::Right) => true,
            (Direction::Right, Direction::Left) => true,
            (Direction::Up, Direction::Down) => true,
            (Direction::Down, Direction::Up) => true,
            _ => false,
        }
    }
}

} // verus!
