use snake::{Board, Direction, Point, Snake};

#[test]
fn point_moves_translate_one_axis() {
    let p = Point::new(3, 4);
    assert_eq!(Point::move_right(p), Point::new(4, 4));
    assert_eq!(Point::move_left(p), Point::new(2, 4));
    assert_eq!(Point::move_down(p), Point::new(3, 5));
    assert_eq!(Point::move_up(p), Point::new(3, 3));
}

#[test]
fn direction_opposites() {
    assert!(Direction::Up.is_opposite(Direction::Down));
    assert!(Direction::Down.is_opposite(Direction::Up));
    assert!(Direction::Left.is_opposite(Direction::Right));
    assert!(Direction::Right.is_opposite(Direction::Left));
    assert!(!Direction::Up.is_opposite(Direction::Left));
    assert!(!Direction::Up.is_opposite(Direction::Up));
}

#[test]
fn board_reports_its_dimensions() {
    let board = Board::new(12, 16);
    assert_eq!(board.get_x_width(), 12);
    assert_eq!(board.get_y_width(), 16);
}

#[test]
fn random_point_respects_offset() {
    let board = Board::new(10, 10);
    for _ in 0..50 {
        let p = Point::get_random_with_offset(&board, 3);
        assert!(3 <= p.x && p.x < 7);
        assert!(3 <= p.y && p.y < 7);
    }
}

#[test]
fn random_point_offset_zero_spans_board() {
    let board = Board::new(10, 10);
    for _ in 0..50 {
        let p = Point::get_random_with_offset(&board, 0);
        assert!(0 <= p.x && p.x < 10);
        assert!(0 <= p.y && p.y < 10);
    }
}

#[test]
fn random_point_large_offset_degrades_to_center() {
    let board = Board::new(11, 11);
    for _ in 0..10 {
        let p = Point::get_random_with_offset(&board, 100);
        assert_eq!(p, Point::new(5, 5));
    }
}

#[test]
fn new_snake_has_exactly_starting_length_within_bounds() {
    let board = Board::new(20, 20);
    let s = Snake::new(&board, 5);
    assert_eq!(s.len(), 5);
    let mut occupied = 0;
    for x in 0..20 {
        for y in 0..20 {
            if s.contains_point(Point::new(x, y)) {
                occupied += 1;
            }
        }
    }
    assert_eq!(occupied, 5);
}

#[test]
fn snake_with_head_lays_body_behind_head() {
    let board = Board::new(10, 10);
    let s = Snake::new_with_head(&board, Point::new(2, 5), 3);
    assert_eq!(s.len(), 3);
    assert_eq!(s.head(), Point::new(2, 5));
    assert!(s.contains_point(Point::new(3, 5)));
    assert!(s.contains_point(Point::new(4, 5)));
    let s2 = Snake::new_with_head(&board, Point::new(8, 5), 3);
    assert!(s2.contains_point(Point::new(7, 5)));
    assert!(s2.contains_point(Point::new(6, 5)));
}

#[test]
fn move_then_shrink_preserves_length() {
    let board = Board::new(20, 20);
    let mut s = Snake::new_with_head(&board, Point::new(5, 5), 3);
    assert_eq!(s.len(), 3);
    s.move_direction(Direction::Up);
    assert_eq!(s.len(), 4);
    s.shrink_tail();
    assert_eq!(s.len(), 3);
}

#[test]
fn fresh_snake_never_bites_itself() {
    let board = Board::new(20, 20);
    for n in 1..6 {
        let s = Snake::new(&board, n);
        assert!(!s.bit_itself());
    }
}

#[test]
fn straight_line_movement_never_bites() {
    let board = Board::new(30, 30);
    // A head left of the midline lays its body out rightward, so the snake
    // is free to keep heading left.
    let mut s = Snake::new_with_head(&board, Point::new(10, 10), 4);
    assert!(!s.bit_itself());
    for _ in 0..5 {
        s.move_direction(Direction::Left);
        s.shrink_tail();
        assert!(!s.bit_itself());
    }
}

#[test]
fn reversing_into_the_body_bites() {
    let board = Board::new(30, 30);
    // Body extends rightward from the head, so heading right re-enters it.
    let mut s = Snake::new_with_head(&board, Point::new(10, 10), 3);
    s.move_direction(Direction::Right);
    assert!(s.bit_itself());
}

#[test]
fn hit_wall_left_of_board() {
    let board = Board::new(10, 10);
    let mut s = Snake::new_with_head(&board, Point::new(0, 5), 1);
    s.move_direction(Direction::Left);
    assert!(s.hit_wall(&board));
}

#[test]
fn hit_wall_right_of_board() {
    let board = Board::new(10, 10);
    let mut s = Snake::new_with_head(&board, Point::new(9, 5), 1);
    s.move_direction(Direction::Right);
    assert!(s.hit_wall(&board));
}

#[test]
fn hit_wall_above_board() {
    let board = Board::new(10, 10);
    let mut s = Snake::new_with_head(&board, Point::new(5, 0), 1);
    s.move_direction(Direction::Up);
    assert!(s.hit_wall(&board));
}

#[test]
fn hit_wall_below_board() {
    let board = Board::new(10, 10);
    let mut s = Snake::new_with_head(&board, Point::new(5, 9), 1);
    s.move_direction(Direction::Down);
    assert!(s.hit_wall(&board));
}

#[test]
fn interior_head_does_not_hit_wall() {
    let board = Board::new(10, 10);
    let s = Snake::new_with_head(&board, Point::new(5, 5), 1);
    assert!(!s.hit_wall(&board));
}

#[test]
fn touching_the_near_edge_is_still_inside() {
    let board = Board::new(10, 10);
    let s = Snake::new_with_head(&board, Point::new(0, 0), 1);
    assert!(!s.hit_wall(&board));
}

#[test]
fn contains_point_finds_only_body_cells() {
    let board = Board::new(10, 10);
    let s = Snake::new_with_head(&board, Point::new(2, 5), 3);
    assert!(s.contains_point(Point::new(2, 5)));
    assert!(s.contains_point(Point::new(4, 5)));
    assert!(!s.contains_point(Point::new(5, 5)));
    assert!(!s.contains_point(Point::new(2, 6)));
}
