use snake::{render_board, Board, Direction, Game, Point, Snake};

fn fixed_game(width: usize, height: usize, head: Point, length: usize, fruit: Point) -> Game {
    let board = Board::new(width, height);
    let snake = Snake::new_with_head(&board, head, length);
    assert!(!snake.contains_point(fruit));
    Game { board, snake, fruit, running: true }
}

#[test]
fn new_game_starts_running_with_score_zero() {
    let game = Game::new(12, 16, 3);
    assert!(game.is_running());
    assert_eq!(game.get_score(), 0);
    assert_eq!(game.get_board_x_width(), 12);
    assert_eq!(game.get_board_y_width(), 16);
    assert_eq!(game.snake.len(), 3);
}

#[test]
fn new_game_fruit_misses_snake_and_stays_on_board() {
    for _ in 0..30 {
        let game = Game::new(12, 16, 3);
        assert!(!game.snake.contains_point(game.fruit));
        assert!(0 <= game.fruit.x && game.fruit.x < 12);
        assert!(0 <= game.fruit.y && game.fruit.y < 16);
    }
}

#[test]
fn eating_fruit_grows_and_scores() {
    // Snake body (5,5)..(7,5); the fruit sits one step left of the head.
    let mut game = fixed_game(10, 10, Point::new(5, 5), 3, Point::new(4, 5));
    game.progress(Some(Direction::Left));
    assert!(game.is_running());
    assert_eq!(game.get_score(), 1);
    assert_eq!(game.snake.len(), 4);
    // A further move that eats nothing keeps both length and score.
    game.fruit = Point::new(9, 9);
    game.progress(Some(Direction::Left));
    assert!(game.is_running());
    assert_eq!(game.get_score(), 1);
    assert_eq!(game.snake.len(), 4);
}

#[test]
fn regenerated_fruit_misses_snake_and_keeps_margin() {
    for _ in 0..30 {
        let mut game = fixed_game(10, 10, Point::new(5, 5), 3, Point::new(4, 5));
        game.progress(Some(Direction::Left));
        assert!(!game.snake.contains_point(game.fruit));
        assert!(1 <= game.fruit.x && game.fruit.x < 9);
        assert!(1 <= game.fruit.y && game.fruit.y < 9);
    }
}

#[test]
fn driving_into_the_wall_ends_the_game() {
    // A 5x5 board with a single-segment snake at (2,2): three moves right
    // push the head to (5,2), which is out of range, so the game stops with
    // nothing scored.
    let mut game = fixed_game(5, 5, Point::new(2, 2), 1, Point::new(0, 0));
    game.progress(Some(Direction::Right));
    assert!(game.is_running());
    game.progress(Some(Direction::Right));
    assert!(game.is_running());
    game.progress(Some(Direction::Right));
    assert!(!game.is_running());
    assert_eq!(game.get_score(), 0);
}

#[test]
fn biting_the_body_ends_the_game() {
    // Body (5,5)..(9,5) laid rightward; up, right, down walks the head back
    // into the body at (6,5).
    let mut game = fixed_game(20, 20, Point::new(5, 5), 5, Point::new(0, 0));
    game.progress(Some(Direction::Up));
    game.progress(Some(Direction::Right));
    game.progress(Some(Direction::Down));
    assert!(!game.is_running());
    assert_eq!(game.get_score(), 0);
}

#[test]
fn a_straight_run_ends_at_the_wall() {
    let mut game = fixed_game(10, 10, Point::new(5, 5), 1, Point::new(0, 0));
    let mut ticks = 0;
    while game.is_running() {
        game.progress(Some(Direction::Right));
        ticks += 1;
        assert!(ticks <= 10);
    }
    // Head starts at x = 5; the fifth move reaches x = 10, which is out.
    assert_eq!(ticks, 5);
    assert_eq!(game.get_score(), 0);
}

#[test]
fn stop_is_terminal() {
    let mut game = Game::new(12, 16, 3);
    assert!(game.is_running());
    game.stop();
    assert!(!game.is_running());
}

#[test]
fn initial_direction_heads_for_the_open_half() {
    let low = fixed_game(10, 10, Point::new(5, 8), 1, Point::new(0, 0));
    assert_eq!(low.get_initial_direction(), Direction::Up);
    let high = fixed_game(10, 10, Point::new(5, 2), 1, Point::new(0, 0));
    assert_eq!(high.get_initial_direction(), Direction::Down);
}

#[test]
fn rendering_classifies_every_cell() {
    let game = fixed_game(10, 10, Point::new(5, 5), 3, Point::new(4, 5));
    let rows = render_board(&game);
    assert_eq!(rows.len(), 10);
    for row in &rows {
        assert_eq!(row.len(), 10);
    }
    let line: Vec<char> = rows[5].chars().collect();
    assert_eq!(line[4], 'o');
    assert_eq!(line[5], 'x');
    assert_eq!(line[6], 'x');
    assert_eq!(line[7], 'x');
    assert_eq!(line[8], ' ');
    let empty: Vec<char> = rows[0].chars().collect();
    assert_eq!(empty[0], ' ');
}
