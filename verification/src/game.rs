//! The game aggregate: board, snake, fruit and the running flag, advanced
//! one tick at a time.

use vstd::prelude::*;
use vstd::string::StringExecFns;
use crate::board::Board;
use crate::geometry::{axis_min, Direction, Point};
use crate::snake::{moved_body, spec_bites, straight, Snake};

verus! {

/// The body after the optional directional intent of a tick has been
/// applied: a new head pushed for `Some`, the body unchanged for `None`.
pub open spec fn moved_of(s: Seq<Point>, input: Option<Direction>) -> Seq<Point> {
    match input {
        Some(d) => moved_body(s, d),
        None => s,
    }
}

/// The death condition: the head left the board or collided with the body.
pub open spec fn spec_dies(board: Board, s: Seq<Point>) -> bool {
    !board.contains(s[0]) || spec_bites(s)
}

/// The edge margin used when the fruit is regenerated: one cell where the
/// board is wide enough on both axes, none on a tiny board.
pub open spec fn spec_regen_offset(board: Board) -> int {
    if board.spec_x_width() >= 3 && board.spec_y_width() >= 3 {
        1
    } else {
        0
    }
}

/// True iff `p` lies in the board's rectangle shrunk by `offset` (clamped to
/// half the dimension) on each axis.
pub open spec fn in_offset_rect(board: Board, offset: int, p: Point) -> bool {
    &&& axis_min(offset, board.spec_x_width() as int) <= p.x as int
    &&& p.x as int + axis_min(offset, board.spec_x_width() as int) < board.spec_x_width()
    &&& axis_min(offset, board.spec_y_width() as int) <= p.y as int
    &&& p.y as int + axis_min(offset, board.spec_y_width() as int) < board.spec_y_width()
}

/// A running game.  `running` is a terminal flag: once false the simulation
/// is over and `progress` may no longer be called.
pub struct Game {
    pub board: Board,
    pub snake: Snake,
    pub fruit: Point,
    pub running: bool,
}

impl Game {
    /// The state invariant: the board and snake are well formed; while the
    /// game runs the head is on the board and the body does not intersect
    /// itself; and the fruit is always an on-board cell free of the snake.
    pub open spec fn inv(&self) -> bool {
        &&& self.board.wf()
        &&& self.snake.wf()
        &&& self.running ==> self.board.contains(self.snake.spec_head())
        &&& self.running ==> !spec_bites(self.snake@)
        &&& self.board.contains(self.fruit)
        &&& !self.snake@.contains(self.fruit)
    }

    /// The invariant together with the length bound that keeps the score
    /// non-negative; every tick driven by a directional intent preserves it.
    pub open spec fn wf(&self) -> bool {
        &&& self.inv()
        &&& self.snake@.len() >= self.snake.spec_starting_length()
    }

    /// Builds the board and snake, then places the first fruit by rejection
    /// sampling over the whole board until a cell free of the snake comes
    /// up.
    pub fn new(x_width: usize, y_width: usize, starting_length: usize) -> (g: Game)
        requires
            1 <= x_width as int <= i32::MAX as int,
            1 <= y_width as int <= i32::MAX as int,
            2 <= x_width as int * y_width as int,
            starting_length >= 1,
            starting_length as int + x_width as int <= i32::MAX as int,
            2 * axis_min(starting_length as int, x_width as int) < x_width as int,
            2 * axis_min(starting_length as int, y_width as int) < y_width as int,
        ensures
            g.wf(),
            g.running,
            g.board.spec_x_width() == x_width,
            g.board.spec_y_width() == y_width,
            g.snake@.len() == starting_length,
            g.snake.spec_starting_length() == starting_length,
            2 * (starting_length as int) <= x_width as int ==> forall|i: int|
                0 <= i < g.snake@.len() ==> g.board.contains(#[trigger] g.snake@[i]),
    {
        let board = Board::new(x_width, y_width);
        let snake = Snake::new(&board, starting_length);
        proof {
            lemma_free_cell_beside_straight_snake(board, snake);
        }
        let fruit = place_fruit(&board, &snake, 0);
        Game { board, snake, fruit, running: true }
    }

    /// The score: how many segments the snake has gained since the start.
    pub fn get_score(&self) -> (score: u32)
        requires
            self.snake@.len() >= self.snake.spec_starting_length(),
            self.snake@.len() - self.snake.spec_starting_length() <= u32::MAX,
        ensures
            score as int == self.snake@.len() - self.snake.spec_starting_length(),
    {
        let length = self.snake.len();
        let start = self.snake.starting_length();
        (length - start) as u32
    }

    pub fn is_running(&self) -> (r: bool)
        ensures
            r == self.running,
    {
        self.running
    }

    /// Ends the game from outside (a quit command); `running` never comes
    /// back.
    pub fn stop(&mut self)
        ensures
            final(self).running == false,
            final(self).board == old(self).board,
            final(self).snake == old(self).snake,
            final(self).fruit == old(self).fruit,
            old(self).inv() ==> final(self).inv(),
            old(self).wf() ==> final(self).wf(),
    {
        self.running = false;
    }

    /// One simulation tick.  An intent pushes a new head; then either the
    /// snake dies (the fatal head cell is kept, the tail still slides, the
    /// game stops), or it eats the fruit and keeps its tail while a new
    /// fruit is placed on a free cell away from the edge, or it simply
    /// slides forward.
    pub fn progress(&mut self, input: Option<Direction>)
        requires
            old(self).wf(),
            old(self).running,
            input is None ==> old(self).snake@.len() >= 2,
            ({
                let m = moved_of(old(self).snake@, input);
                !spec_dies(old(self).board, m) && m[0] == old(self).fruit ==> exists|p: Point|
                    in_offset_rect(old(self).board, spec_regen_offset(old(self).board), p)
                        && !m.contains(p)
            }),
        ensures
            final(self).inv(),
            final(self).board == old(self).board,
            final(self).snake.spec_starting_length() == old(self).snake.spec_starting_length(),
            input is Some ==> final(self).wf(),
            ({
                let m = moved_of(old(self).snake@, input);
                &&& spec_dies(old(self).board, m) ==> {
                    &&& final(self).running == false
                    &&& final(self).snake@ == m.drop_last()
                    &&& final(self).fruit == old(self).fruit
                }
                &&& !spec_dies(old(self).board, m) && m[0] == old(self).fruit ==> {
                    &&& final(self).running == true
                    &&& final(self).snake@ == m
                    &&& final(self).board.contains(final(self).fruit)
                    &&& !m.contains(final(self).fruit)
                    &&& in_offset_rect(
                        old(self).board,
                        spec_regen_offset(old(self).board),
                        final(self).fruit,
                    )
                }
                &&& !spec_dies(old(self).board, m) && m[0] != old(self).fruit ==> {
                    &&& final(self).running == old(self).running
                    &&& final(self).snake@ == m.drop_last()
                    &&& final(self).fruit == old(self).fruit
                }
            }),
    {
        match input {
            Some(direction) => self.snake.move_direction(direction),
            None => {},
        }
        if self.snake.hit_wall(&self.board) || self.snake.bit_itself() {
            self.running = false;
            self.snake.shrink_tail();
            return;
        }
        let head = self.snake.head();
        if head == self.fruit {
            let offset: usize = if self.board.get_x_width() >= 3 && self.board.get_y_width()
                >= 3 {
                1
            } else {
                0
            };
            self.fruit = place_fruit(&self.board, &self.snake, offset);
        } else {
            self.snake.shrink_tail();
        }
    }

    pub fn get_board_x_width(&self) -> (w: usize)
        ensures
            w == self.board.spec_x_width(),
    {
        self.board.get_x_width()
    }

    pub fn get_board_y_width(&self) -> (h: usize)
        ensures
            h == self.board.spec_y_width(),
    {
        self.board.get_y_width()
    }

    /// A heuristic opening direction: up when the head sits in the lower
    /// half of the board (larger `y`), down otherwise, so the first moves
    /// head into the open majority of the board.
    pub fn get_initial_direction(&self) -> (d: Direction)
        requires
            self.snake@.len() >= 1,
            self.board.wf(),
        ensures
            d == (if self.snake.spec_head().y as int >= self.board.spec_y_width() as int / 2 {
                Direction::Up
            } else {
                Direction::Down
            }),
    {
        let head = self.snake.head();
        let half: usize = self.board.get_y_width() / 2;
        if head.y >= 0 && (head.y as usize) >= half {
            Direction::Up
        } else {
            Direction::Down
        }
    }
}

/// The character a rendered cell shows: the snake body, the fruit, or an
/// empty cell.
pub open spec fn spec_cell_char(g: Game, x: int, y: int) -> char {
    if g.snake@.contains(Point { x: x as i32, y: y as i32 }) {
        'x'
    } else if g.fruit == (Point { x: x as i32, y: y as i32 }) {
        'o'
    } else {
        ' '
    }
}

/// Draws the whole grid as one text row per board row, classifying each
/// cell as snake, fruit or empty; any front end can print these as they
/// are.
pub fn render_board(game: &Game) -> (rows: Vec<String>)
    requires
        game.board.wf(),
    ensures
        rows@.len() == game.board.spec_y_width(),
        forall|y: int|
            0 <= y < rows@.len() ==> (#[trigger] rows@[y])@.len() == game.board.spec_x_width(),
        forall|y: int, x: int|
            0 <= y < rows@.len() && 0 <= x < rows@[y]@.len() ==> (#[trigger] rows@[y]@[x])
                == spec_cell_char(*game, x, y),
{
    let w = game.board.get_x_width();
    let h = game.board.get_y_width();
    let mut rows: Vec<String> = Vec::new();
    let mut y: usize = 0;
    while y < h
        invariant
            0 <= y <= h,
            h == game.board.spec_y_width(),
            w == game.board.spec_x_width(),
            game.board.wf(),
            rows@.len() == y,
            forall|j: int| 0 <= j < y ==> (#[trigger] rows@[j])@.len() == w,
            forall|j: int, x: int|
                0 <= j < y && 0 <= x < w ==> (#[trigger] rows@[j]@[x]) == spec_cell_char(
                    *game,
                    x,
                    j,
                ),
        decreases h - y,
    {
        let mut row = String::new();
        let mut x: usize = 0;
        while x < w
            invariant
                0 <= x <= w,
                h == game.board.spec_y_width(),
                w == game.board.spec_x_width(),
                game.board.wf(),
                y < h,
                row@.len() == x,
                forall|i: int| 0 <= i < x ==> (#[trigger] row@[i]) == spec_cell_char(*game, i, y as int),
            decreases w - x,
        {
            proof {
                reveal_strlit("x");
                reveal_strlit("o");
                reveal_strlit(" ");
            }
            let p = Point::new(x as i32, y as i32);
            if game.snake.contains_point(p) {
                row.append("x");
            } else if p == game.fruit {
                row.append("o");
            } else {
                row.append(" ");
            }
            x = x + 1;
        }
        rows.push(row);
        y = y + 1;
    }
    rows
}

/// A freshly laid-out snake never fills the board: its body is a horizontal
/// line inside the shrunk spawn rectangle, so some board cell directly
/// beside it is free.  This feeds the first fruit placement.
proof fn lemma_free_cell_beside_straight_snake(board: Board, snake: Snake)
    requires
        board.wf(),
        2 <= board.spec_x_width() as int * board.spec_y_width() as int,
        snake@.len() >= 1,
        board.contains(snake@[0]),
        axis_min(snake@.len() as int, board.spec_x_width() as int) <= snake@[0].x as int,
        snake@[0].x as int + axis_min(snake@.len() as int, board.spec_x_width() as int)
            < board.spec_x_width(),
        axis_min(snake@.len() as int, board.spec_y_width() as int) <= snake@[0].y as int,
        snake@[0].y as int + axis_min(snake@.len() as int, board.spec_y_width() as int)
            < board.spec_y_width(),
        snake@[0].x as int > board.spec_x_width() as int / 2 ==> straight(
            snake@,
            Direction::Right,
        ),
        snake@[0].x as int <= board.spec_x_width() as int / 2 ==> straight(
            snake@,
            Direction::Left,
        ),
    ensures
        exists|p: Point| in_offset_rect(board, 0, p) && !snake@.contains(p),
{
    let s = snake@;
    let head = s[0];
    let w = board.spec_x_width() as int;
    let h = board.spec_y_width() as int;
    if h >= 2 {
        assert(axis_min(s.len() as int, h) >= 1);
        let p0 = Point { x: head.x, y: (head.y - 1) as i32 };
        assert(p0.y as int == head.y - 1);
        assert(in_offset_rect(board, 0, p0));
        assert forall|i: int| 0 <= i < s.len() implies #[trigger] s[i] != p0 by {
            assert(s[i].y == head.y);
        }
        assert(!s.contains(p0));
    } else {
        assert(h == 1);
        assert(w >= 2) by (nonlinear_arith)
            requires
                2 <= w * h,
                h == 1,
        ;
        assert(axis_min(s.len() as int, w) >= 1);
        if head.x as int > w / 2 {
            let p0 = Point { x: (head.x + 1) as i32, y: head.y };
            assert(p0.x as int == head.x + 1);
            assert(in_offset_rect(board, 0, p0));
            assert forall|i: int| 0 <= i < s.len() implies #[trigger] s[i] != p0 by {
                assert(s[i].x as int == head.x - i);
            }
            assert(!s.contains(p0));
        } else {
            let p0 = Point { x: (head.x - 1) as i32, y: head.y };
            assert(p0.x as int == head.x - 1);
            assert(in_offset_rect(board, 0, p0));
            assert forall|i: int| 0 <= i < s.len() implies #[trigger] s[i] != p0 by {
                assert(s[i].x as int == head.x + i);
            }
            assert(!s.contains(p0));
        }
    }
}

/// Rejection sampling for the fruit: random points with the given edge
/// offset are drawn until one misses every snake segment.  The draws are
/// capped, and after the cap a deterministic scan of the rectangle finds a
/// free cell, so the function returns whenever one exists at all; on a
/// board far from full a draw is accepted quickly.
fn place_fruit(board: &Board, snake: &Snake, offset: usize) -> (f: Point)
    requires
        board.wf(),
        2 * axis_min(offset as int, board.spec_x_width() as int) < board.spec_x_width() as int,
        2 * axis_min(offset as int, board.spec_y_width() as int) < board.spec_y_width() as int,
        exists|p: Point| in_offset_rect(*board, offset as int, p) && !snake@.contains(p),
    ensures
        board.contains(f),
        !snake@.contains(f),
        in_offset_rect(*board, offset as int, f),
{
    let mut tries: usize = 0;
    while tries < 32
        invariant
            board.wf(),
            2 * axis_min(offset as int, board.spec_x_width() as int)
                < board.spec_x_width() as int,
            2 * axis_min(offset as int, board.spec_y_width() as int)
                < board.spec_y_width() as int,
        decreases 32 - tries,
    {
        let candidate = Point::get_random_with_offset(board, offset);
        if !snake.contains_point(candidate) {
            return candidate;
        }
        tries = tries + 1;
    }
    scan_for_free_cell(board, snake, offset)
}

/// The deterministic fallback behind `place_fruit`: walks the shrunk
/// rectangle row by row and returns its first cell free of the snake.
fn scan_for_free_cell(board: &Board, snake: &Snake, offset: usize) -> (f: Point)
    requires
        board.wf(),
        2 * axis_min(offset as int, board.spec_x_width() as int) < board.spec_x_width() as int,
        2 * axis_min(offset as int, board.spec_y_width() as int) < board.spec_y_width() as int,
        exists|p: Point| in_offset_rect(*board, offset as int, p) && !snake@.contains(p),
    ensures
        board.contains(f),
        !snake@.contains(f),
        in_offset_rect(*board, offset as int, f),
{
    let w = board.get_x_width();
    let h = board.get_y_width();
    let x_half: usize = w / 2;
    let x_min: usize = if offset < x_half {
        offset
    } else {
        x_half
    };
    let y_half: usize = h / 2;
    let y_min: usize = if offset < y_half {
        offset
    } else {
        y_half
    };
    let mut y: usize = y_min;
    while y < h - y_min
        invariant
            board.wf(),
            w == board.spec_x_width(),
            h == board.spec_y_width(),
            x_min == axis_min(offset as int, w as int),
            y_min == axis_min(offset as int, h as int),
            2 * (x_min as int) < w as int,
            2 * (y_min as int) < h as int,
            y_min <= y <= h - y_min,
            exists|p: Point| in_offset_rect(*board, offset as int, p) && !snake@.contains(p),
            forall|px: int, py: int|
                x_min <= px && px + x_min < w && y_min <= py && py < y
                    ==> #[trigger] snake@.contains(Point { x: px as i32, y: py as i32 }),
        decreases h - y_min - y,
    {
        let mut x: usize = x_min;
        while x < w - x_min
            invariant
                board.wf(),
                w == board.spec_x_width(),
                h == board.spec_y_width(),
                x_min == axis_min(offset as int, w as int),
                y_min == axis_min(offset as int, h as int),
                2 * (x_min as int) < w as int,
                2 * (y_min as int) < h as int,
                y_min <= y < h - y_min,
                x_min <= x <= w - x_min,
                forall|px: int, py: int|
                    x_min <= px && px + x_min < w && y_min <= py && py < y ==> #[trigger] snake@.contains(Point { x: px as i32, y: py as i32 }),
                forall|px: int|
                    x_min <= px && px < x ==> #[trigger] snake@.contains(Point { x: px as i32, y: y as i32 }),
            decreases w - x_min - x,
        {
            let candidate = Point::new(x as i32, y as i32);
            if !snake.contains_point(candidate) {
                return candidate;
            }
            x = x + 1;
        }
        y = y + 1;
    }
    proof {
        let p0 = choose|p: Point|
            in_offset_rect(*board, offset as int, p) && !snake@.contains(p);
        assert(snake@.contains(Point { x: p0.x as int as i32, y: p0.y as int as i32 }));
        assert(Point { x: p0.x as int as i32, y: p0.y as int as i32 } == p0);
        assert(false);
    }
    unreached()
}

} // verus!
