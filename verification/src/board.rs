//! The playable rectangle.

use vstd::prelude::*;
use crate::geometry::Point;

verus! {

/// The board: legal cells are `[0, x_width) x [0, y_width)`.  Dimensions are
/// fixed for the lifetime of a game.
#[derive(Debug, Clone, Copy)]
pub struct Board {
    x_width: usize,
    y_width: usize,
}

impl Board {
    pub closed spec fn spec_x_width(self) -> usize {
        self.x_width
    }

    pub closed spec fn spec_y_width(self) -> usize {
        self.y_width
    }

    /// Both dimensions are positive, and small enough that every cell
    /// coordinate fits in an `i32`.
    pub open spec fn wf(self) -> bool {
        &&& 1 <= self.spec_x_width() as int <= i32::MAX as int
        &&& 1 <= self.spec_y_width() as int <= i32::MAX as int
    }

    /// True iff `p` lies strictly inside the board.
    pub open spec fn contains(self, p: Point) -> bool {
        &&& 0 <= (p.x as int) < self.spec_x_width()
        &&& 0 <= (p.y as int) < self.spec_y_width()
    }

    pub fn new(x_width: usize, y_width: usize) -> (b: Board)
        requires
            1 <= x_width as int <= i32::MAX as int,
            1 <= y_width as int <= i32::MAX as int,
        ensures
            b.spec_x_width() == x_width,
            b.spec_y_width() == y_width,
            b.wf(),
    {
        Board { x_width, y_width }
    }

    pub fn get_x_width(&self) -> (w: usize)
        ensures
            w == self.spec_x_width(),
    {
        self.x_width
    }

    pub fn get_y_width(&self) -> (h: usize)
        ensures
            h == self.spec_y_width(),
    {
        self.y_width
    }
}

} // verus!
