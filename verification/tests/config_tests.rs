use snake::Config;

#[test]
fn empty_document_yields_defaults() {
    let c = Config::from_document(&Vec::new());
    assert_eq!(c.snake_starting_length, 3);
    assert_eq!(c.start_refresh_in_ms, 100);
    assert_eq!(c.max_refresh_in_ms, 50);
}

#[test]
fn default_matches_the_fallback_values() {
    let c = Config::default();
    assert_eq!(c.snake_starting_length, 3);
    assert_eq!(c.start_refresh_in_ms, 100);
    assert_eq!(c.max_refresh_in_ms, 50);
}

#[test]
fn full_document_sets_all_three_values() {
    let text = b"starting_length=5\ninitial_interval=200\nminimum_interval=20\n".to_vec();
    let c = Config::from_document(&text);
    assert_eq!(c.snake_starting_length, 5);
    assert_eq!(c.start_refresh_in_ms, 200);
    assert_eq!(c.max_refresh_in_ms, 20);
}

#[test]
fn document_without_trailing_newline_works() {
    let text = b"starting_length=4".to_vec();
    let c = Config::from_document(&text);
    assert_eq!(c.snake_starting_length, 4);
    assert_eq!(c.start_refresh_in_ms, 100);
    assert_eq!(c.max_refresh_in_ms, 50);
}

#[test]
fn malformed_lines_fall_back_to_defaults() {
    let text = b"starting_length=abc\ninitial_interval=\nnonsense\n=7\n".to_vec();
    let c = Config::from_document(&text);
    assert_eq!(c.snake_starting_length, 3);
    assert_eq!(c.start_refresh_in_ms, 100);
    assert_eq!(c.max_refresh_in_ms, 50);
}

#[test]
fn zero_values_are_rejected() {
    let text = b"starting_length=0\ninitial_interval=0\nminimum_interval=0\n".to_vec();
    let c = Config::from_document(&text);
    assert_eq!(c.snake_starting_length, 3);
    assert_eq!(c.start_refresh_in_ms, 100);
    assert_eq!(c.max_refresh_in_ms, 50);
}

#[test]
fn oversized_value_is_rejected() {
    let text = b"initial_interval=99999999999999999999999999\n".to_vec();
    let c = Config::from_document(&text);
    assert_eq!(c.start_refresh_in_ms, 100);
}

#[test]
fn later_setting_overrides_earlier() {
    let text = b"starting_length=5\nstarting_length=7\n".to_vec();
    let c = Config::from_document(&text);
    assert_eq!(c.snake_starting_length, 7);
}

#[test]
fn unrelated_lines_leave_good_ones_standing() {
    let text = b"# speed\ninitial_interval=150\nminimum_interval=60\n".to_vec();
    let c = Config::from_document(&text);
    assert_eq!(c.snake_starting_length, 3);
    assert_eq!(c.start_refresh_in_ms, 150);
    assert_eq!(c.max_refresh_in_ms, 60);
}
