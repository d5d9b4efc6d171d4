//! The snake: an ordered body of points, head first, that slides, grows and
//! collides.

use vstd::prelude::*;
use std::collections::VecDeque;
use crate::board::Board;
use crate::geometry::{axis_min, step_point, step_in_range, Direction, Point};

verus! {

/// True iff the head occupies the same cell as some other segment.
pub open spec fn spec_bites(s: Seq<Point>) -> bool {
    exists|i: int| 1 <= i < s.len() && #[trigger] s[i] == s[0]
}

/// The body after a new head has been pushed one step in direction `d`.
pub open spec fn moved_body(s: Seq<Point>, d: Direction) -> Seq<Point> {
    seq![step_point(s[0], d)] + s
}

/// The body after one steady-state tick: a step in direction `d` followed by
/// dropping the tail segment.
pub open spec fn after_step_body(s: Seq<Point>, d: Direction) -> Seq<Point> {
    moved_body(s, d).drop_last()
}

/// The body lies in a straight line directly behind a head that is heading
/// in direction `d`: segment `i` sits `i` cells behind the head.
pub open spec fn straight(s: Seq<Point>, d: Direction) -> bool {
    match d {
        Direction::Right => forall|i: int|
            0 <= i < s.len() ==> (#[trigger] s[i]).y == s[0].y && s[i].x as int == s[0].x - i,
        Direction::Left => forall|i: int|
            0 <= i < s.len() ==> (#[trigger] s[i]).y == s[0].y && s[i].x as int == s[0].x + i,
        Direction::Down => forall|i: int|
            0 <= i < s.len() ==> (#[trigger] s[i]).x == s[0].x && s[i].y as int == s[0].y - i,
        Direction::Up => forall|i: int|
            0 <= i < s.len() ==> (#[trigger] s[i]).x == s[0].x && s[i].y as int == s[0].y + i,
    }
}

/// The snake.  The head is the first element of `body`, the tail the last;
/// `starting_length` is recorded so the score can be read off the length.
pub struct Snake {
    body: VecDeque<Point>,
    starting_length: usize,
}

impl View for Snake {
    type V = Seq<Point>;

    closed spec fn view(&self) -> Seq<Point> {
        self.body@
    }
}

impl Snake {
    pub closed spec fn spec_starting_length(&self) -> usize {
        self.starting_length
    }

    /// A snake always has at least its head, and was created with a positive
    /// starting length.
    pub open spec fn wf(&self) -> bool {
        &&& self@.len() >= 1
        &&& self.spec_starting_length() >= 1
    }

    pub open spec fn spec_head(&self) -> Point {
        self@[0]
    }

    /// Lays out a snake of `starting_length` segments with the given head:
    /// the rest of the body extends horizontally, leftward when the head is
    /// right of the board's midline and rightward otherwise, which keeps the
    /// whole body on any board at least twice as wide as the snake is long.
    pub fn new_with_head(board: &Board, head: Point, starting_length: usize) -> (s: Snake)
        requires
            board.wf(),
            starting_length >= 1,
            board.contains(head),
            head.x as int + starting_length <= i32::MAX as int,
        ensures
            s.wf(),
            s@.len() == starting_length,
            s.spec_starting_length() == starting_length,
            s@[0] == head,
            head.x as int > board.spec_x_width() as int / 2 ==> straight(s@, Direction::Right),
            head.x as int <= board.spec_x_width() as int / 2 ==> straight(s@, Direction::Left),
            !spec_bites(s@),
            2 * (starting_length as int) <= board.spec_x_width() as int ==> forall|i: int|
                0 <= i < s@.len() ==> board.contains(#[trigger] s@[i]),
    {
        let w = board.get_x_width();
        let go_left: bool = head.x > (w as i32) / 2;
        let mut body: VecDeque<Point> = VecDeque::new();
        body.push_back(head);
        let mut current: Point = head;
        let mut k: usize = 1;
        while k < starting_length
            invariant
                1 <= k <= starting_length,
                starting_length >= 1,
                head.x as int + starting_length <= i32::MAX as int,
                head.x >= 0,
                body@.len() == k,
                body@[0] == head,
                current == body@[k - 1],
                go_left ==> forall|i: int|
                    0 <= i < k ==> (#[trigger] body@[i]).y == head.y && body@[i].x as int
                        == head.x - i,
                !go_left ==> forall|i: int|
                    0 <= i < k ==> (#[trigger] body@[i]).y == head.y && body@[i].x as int
                        == head.x + i,
            decreases starting_length - k,
        {
            current = if go_left {
                Point::move_left(current)
            } else {
                Point::move_right(current)
            };
            body.push_back(current);
            k = k + 1;
        }
        proof {
            assert forall|i: int| 1 <= i < body@.len() implies #[trigger] body@[i] != body@[0] by {
                assert(body@[i].x as int != body@[0].x as int);
            }
            if 2 * (starting_length as int) <= board.spec_x_width() as int {
                assert forall|i: int| 0 <= i < body@.len() implies board.contains(
                    #[trigger] body@[i],
                ) by {
                    assert(2 * (board.spec_x_width() as int / 2) <= board.spec_x_width() as int);
                }
            }
        }
        Snake { body, starting_length }
    }

    /// A new snake: the head is drawn at random from the board shrunk by
    /// `starting_length` on each axis (so there is room to lay the body
    /// out), and the body extends horizontally behind it.
    pub fn new(board: &Board, starting_length: usize) -> (s: Snake)
        requires
            board.wf(),
            starting_length >= 1,
            starting_length as int + board.spec_x_width() as int <= i32::MAX as int,
            2 * axis_min(starting_length as int, board.spec_x_width() as int)
                < board.spec_x_width() as int,
            2 * axis_min(starting_length as int, board.spec_y_width() as int)
                < board.spec_y_width() as int,
        ensures
            s.wf(),
            s@.len() == starting_length,
            s.spec_starting_length() == starting_length,
            board.contains(s@[0]),
            axis_min(starting_length as int, board.spec_x_width() as int) <= s@[0].x as int,
            s@[0].x as int + axis_min(starting_length as int, board.spec_x_width() as int)
                < board.spec_x_width(),
            axis_min(starting_length as int, board.spec_y_width() as int) <= s@[0].y as int,
            s@[0].y as int + axis_min(starting_length as int, board.spec_y_width() as int)
                < board.spec_y_width(),
            s@[0].x as int > board.spec_x_width() as int / 2 ==> straight(s@, Direction::Right),
            s@[0].x as int <= board.spec_x_width() as int / 2 ==> straight(s@, Direction::Left),
            !spec_bites(s@),
            2 * (starting_length as int) <= board.spec_x_width() as int ==> forall|i: int|
                0 <= i < s@.len() ==> board.contains(#[trigger] s@[i]),
    {
        let head = Point::get_random_with_offset(board, starting_length);
        Snake::new_with_head(board, head, starting_length)
    }

    /// Pushes a new head one step in the given direction.  The tail is not
    /// touched: growth or sliding is the caller's decision.
    pub fn move_direction(&mut self, direction: Direction)
        requires
            old(self).wf(),
            step_in_range(old(self).spec_head(), direction),
        ensures
            final(self).wf(),
            final(self)@ == moved_body(old(self)@, direction),
            final(self)@.len() == old(self)@.len() + 1,
            final(self).spec_starting_length() == old(self).spec_starting_length(),
    {
        let head: Point = self.body[0];
        let new_head: Point = match direction {
            Direction::Down => Point::move_down(head),
            Direction::Up => Point::move_up(head),
            Direction::Left => Point::move_left(head),
            Direction::Right => Point::move_right(head),
        };
        self.body.push_front(new_head);
    }

    /// Removes the tail segment.  Shrinking a snake of a single segment is a
    /// driving error, so it is excluded here.
    pub fn shrink_tail(&mut self)
        requires
            old(self)@.len() >= 2,
        ensures
            final(self).wf() == old(self).wf(),
            final(self)@ == old(self)@.drop_last(),
            final(self)@.len() == old(self)@.len() - 1,
            final(self).spec_starting_length() == old(self).spec_starting_length(),
    {
        let _ = self.body.pop_back();
    }

    /// True iff the head collides with another segment of the body.
    pub fn bit_itself(&self) -> (r: bool)
        ensures
            r == spec_bites(self@),
    {
        if self.body.len() == 0 {
            return false;
        }
        let head: Point = self.body[0];
        let mut i: usize = 1;
        while i < self.body.len()
            invariant
                1 <= i <= self@.len(),
                head == self@[0],
                forall|j: int| 1 <= j < i ==> #[trigger] self@[j] != self@[0],
            decreases self@.len() - i,
        {
            if self.body[i] == head {
                return true;
            }
            i = i + 1;
        }
        false
    }

    /// True iff the head lies outside the board: `x < 0`, `x >= width`,
    /// `y < 0` or `y >= height`.
    pub fn hit_wall(&self, board: &Board) -> (r: bool)
        ensures
            r == (self@.len() >= 1 && !board.contains(self@[0])),
    {
        if self.body.len() == 0 {
            return false;
        }
        let head: Point = self.body[0];
        if head.x < 0 || head.y < 0 {
            return true;
        }
        (head.x as usize) >= board.get_x_width() || (head.y as usize) >= board.get_y_width()
    }

    /// Membership test against the whole body, used for fruit placement and
    /// for rendering.
    pub fn contains_point(&self, point: Point) -> (r: bool)
        ensures
            r == self@.contains(point),
    {
        let mut i: usize = 0;
        while i < self.body.len()
            invariant
                0 <= i <= self@.len(),
                forall|j: int| 0 <= j < i ==> #[trigger] self@[j] != point,
            decreases self@.len() - i,
        {
            if self.body[i] == point {
                return true;
            }
            i = i + 1;
        }
        false
    }

    /// The current number of body segments.
    pub fn len(&self) -> (n: usize)
        ensures
            n == self@.len(),
    {
        self.body.len()
    }

    /// The head segment.
    pub fn head(&self) -> (p: Point)
        requires
            self@.len() >= 1,
        ensures
            p == self.spec_head(),
    {
        self.body[0]
    }

    /// The length the snake was created with.
    pub fn starting_length(&self) -> (n: usize)
        ensures
            n == self.spec_starting_length(),
    {
        self.starting_length
    }
}

/// One tick of steady-state movement keeps the body length, while the move
/// alone (growth) increases it by one.
pub proof fn lemma_steady_state_length(s: Seq<Point>, d: Direction)
    requires
        s.len() >= 1,
    ensures
        moved_body(s, d).len() == s.len() + 1,
        after_step_body(s, d).len() == s.len(),
{
}

/// A snake whose body trails straight behind its heading never bites itself
/// on the next steady-state step in that same heading, and its body is
/// straight again afterwards; by induction, driving a freshly laid-out
/// snake in a straight line, without ever turning back into the body, stays
/// bite-free for any number of ticks.
pub proof fn lemma_straight_step(s: Seq<Point>, d: Direction)
    requires
        s.len() >= 1,
        straight(s, d),
        step_in_range(s[0], d),
    ensures
        after_step_body(s, d).len() == s.len(),
        straight(after_step_body(s, d), d),
        !spec_bites(after_step_body(s, d)),
{
    let t = after_step_body(s, d);
    assert(t[0] == step_point(s[0], d));
    assert forall|i: int| 1 <= i < t.len() implies #[trigger] t[i] == s[i - 1] by {}
    match d {
        Direction::Right => {
            assert forall|i: int| 0 <= i < t.len() implies (#[trigger] t[i]).y == t[0].y
                && t[i].x as int == t[0].x - i by {
                if i >= 1 {
                    assert(t[i] == s[i - 1]);
                }
            }
        },
        Direction::Left => {
            assert forall|i: int| 0 <= i < t.len() implies (#[trigger] t[i]).y == t[0].y
                && t[i].x as int == t[0].x + i by {
                if i >= 1 {
                    assert(t[i] == s[i - 1]);
                }
            }
        },
        Direction::Down => {
            assert forall|i: int| 0 <= i < t.len() implies (#[trigger] t[i]).x == t[0].x
                && t[i].y as int == t[0].y - i by {
                if i >= 1 {
                    assert(t[i] == s[i - 1]);
                }
            }
        },
        Direction::Up => {
            assert forall|i: int| 0 <= i < t.len() implies (#[trigger] t[i]).x == t[0].x
                && t[i].y as int == t[0].y + i by {
                if i >= 1 {
                    assert(t[i] == s[i - 1]);
                }
            }
        },
    }
    assert forall|i: int| 1 <= i < t.len() implies #[trigger] t[i] != t[0] by {
        match d {
            Direction::Right | Direction::Left => assert(t[i].x as int != t[0].x as int),
            Direction::Down | Direction::Up => assert(t[i].y as int != t[0].y as int),
        }
    }
}

} // verus!
