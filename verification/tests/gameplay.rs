use ggsweep::config::game_config::{GameColors, GameConfig};
use ggsweep::error::StateError;
use ggsweep::state::{EventResult, MouseButton, State};
use ggsweep::states::game_state::{GameState, SquareState, SquareVisual};

fn colors() -> GameColors {
    GameColors {
        square: (200, 200, 200),
        selected_square: (255, 255, 150),
        mine_square: (255, 0, 0),
    }
}

fn config_10x10(number_of_mines: usize) -> GameConfig {
    GameConfig {
        game_size: (10, 10),
        number_of_mines,
        square_size: 32,
        colors: colors(),
    }
}

/// Move the mouse over a grid cell, in pixels.
fn hover(game: &mut GameState, cx: i32, cy: i32) {
    let r = game.mouse_motion_event(cx * 32 + 5, cy * 32 + 5, 0, 0);
    assert_eq!(r, Ok(EventResult::Block));
}

#[test]
fn invalid_config_is_rejected() {
    let mut too_many_mines = config_10x10(100);
    assert!(matches!(
        GameState::new(too_many_mines),
        Err(StateError::Config)
    ));
    too_many_mines.number_of_mines = 99;
    assert!(GameState::new(too_many_mines).is_ok());

    let mut no_width = config_10x10(5);
    no_width.game_size = (0, 10);
    assert!(matches!(GameState::new(no_width), Err(StateError::Config)));

    let mut flat_squares = config_10x10(5);
    flat_squares.square_size = 0;
    assert!(matches!(GameState::new(flat_squares), Err(StateError::Config)));
    assert!(!flat_squares.is_valid());
    assert!(config_10x10(5).is_valid());
}

#[test]
fn fresh_game_is_closed_and_mineless() {
    let game = GameState::new(config_10x10(10)).expect("valid config");
    assert_eq!(game.mines.len(), 0);
    assert_eq!(game.mouse_index, None);
    assert_eq!(game.mouse_press, None);
    for i in 0..100 {
        assert_eq!(game.cell(i), SquareState::Closed(false));
    }
}

#[test]
fn mouse_motion_tracks_the_grid() {
    let mut game = GameState::new(config_10x10(10)).expect("valid config");
    hover(&mut game, 3, 3);
    assert_eq!(game.mouse_index, Some(33));
    hover(&mut game, 0, 0);
    assert_eq!(game.mouse_index, Some(0));
    // off the grid to the right
    let r = game.mouse_motion_event(10 * 32 + 1, 5, 0, 0);
    assert_eq!(r, Ok(EventResult::Block));
    assert_eq!(game.mouse_index, None);
    // negative coordinates are outside
    let r = game.mouse_motion_event(-3, 5, 0, 0);
    assert_eq!(r, Ok(EventResult::Block));
    assert_eq!(game.mouse_index, None);
}

#[test]
fn first_click_places_mines_and_opens_the_cell() {
    let mut game = GameState::new(config_10x10(10)).expect("valid config");
    hover(&mut game, 3, 3);
    let r = game.mouse_button_down_event(MouseButton::Left, 3 * 32 + 5, 3 * 32 + 5);
    assert_eq!(r, Ok(EventResult::Block));
    assert_eq!(game.mouse_press, Some((MouseButton::Left, 33)));
    let r = game.mouse_button_up_event(MouseButton::Left, 3 * 32 + 5, 3 * 32 + 5);
    assert_eq!(r, Ok(EventResult::Block));
    assert_eq!(game.mouse_press, None);

    // the generation pass placed every mine on the grid, sparing (3, 3)
    assert_eq!(game.mines.len(), 10);
    assert!(!game.mines.contains(&33));
    for &m in game.mines.iter() {
        assert!(m < 100);
    }

    // (3, 3) is open with its neighbor-mine count
    match game.cell(33) {
        SquareState::Open(n) => assert!(n <= 8),
        SquareState::Closed(_) => panic!("the clicked cell must be open"),
    }
}

#[test]
fn release_on_another_cell_does_not_open() {
    let mut game = GameState::new(config_10x10(10)).expect("valid config");
    hover(&mut game, 3, 3);
    game.mouse_button_down_event(MouseButton::Left, 0, 0).unwrap();
    hover(&mut game, 4, 3);
    game.mouse_button_up_event(MouseButton::Left, 0, 0).unwrap();
    assert_eq!(game.mouse_press, None);
    assert_eq!(game.cell(33), SquareState::Closed(false));
    assert_eq!(game.cell(34), SquareState::Closed(false));
    assert_eq!(game.mines.len(), 0);
}

#[test]
fn right_click_toggles_the_flag() {
    let mut game = GameState::new(config_10x10(10)).expect("valid config");
    hover(&mut game, 2, 5);
    game.mouse_button_down_event(MouseButton::Right, 0, 0).unwrap();
    game.mouse_button_up_event(MouseButton::Right, 0, 0).unwrap();
    assert_eq!(game.cell(52), SquareState::Closed(true));
    game.mouse_button_down_event(MouseButton::Right, 0, 0).unwrap();
    game.mouse_button_up_event(MouseButton::Right, 0, 0).unwrap();
    assert_eq!(game.cell(52), SquareState::Closed(false));
    // flagging places no mines
    assert_eq!(game.mines.len(), 0);
}

#[test]
fn zero_neighbor_count_floods_the_neighbors_open() {
    // no mines at all: opening any cell opens its whole neighborhood
    let mut game = GameState::new(config_10x10(0)).expect("valid config");
    hover(&mut game, 5, 5);
    game.mouse_button_down_event(MouseButton::Left, 0, 0).unwrap();
    game.mouse_button_up_event(MouseButton::Left, 0, 0).unwrap();
    for i in 0..100 {
        assert_eq!(game.cell(i), SquareState::Open(0));
    }
}

#[test]
fn square_visuals_follow_the_state() {
    let mut game = GameState::new(config_10x10(10)).expect("valid config");
    assert_eq!(
        game.square_visual(11),
        SquareVisual::Closed { selected: false, flagged: false }
    );
    hover(&mut game, 1, 1);
    assert_eq!(
        game.square_visual(11),
        SquareVisual::Closed { selected: true, flagged: false }
    );
    // a held press pins the selection to the pressed square
    game.mouse_button_down_event(MouseButton::Left, 0, 0).unwrap();
    hover(&mut game, 2, 2);
    assert_eq!(
        game.square_visual(11),
        SquareVisual::Closed { selected: true, flagged: false }
    );
    assert_eq!(
        game.square_visual(22),
        SquareVisual::Closed { selected: false, flagged: false }
    );
}

#[test]
fn opened_squares_show_numbers_or_blanks() {
    let mut game = GameState::new(config_10x10(10)).expect("valid config");
    hover(&mut game, 7, 7);
    game.mouse_button_down_event(MouseButton::Left, 0, 0).unwrap();
    game.mouse_button_up_event(MouseButton::Left, 0, 0).unwrap();
    match game.cell(77) {
        SquareState::Open(0) => assert_eq!(game.square_visual(77), SquareVisual::Blank),
        SquareState::Open(n) => assert_eq!(game.square_visual(77), SquareVisual::Number(n)),
        SquareState::Closed(_) => panic!("the clicked cell must be open"),
    }
}

#[test]
fn conversions_between_index_and_point_roundtrip() {
    let game = GameState::new(config_10x10(10)).expect("valid config");
    assert_eq!(game.index_to_point(33), (3, 3));
    assert_eq!(game.point_to_index((3, 3)), 33);
    assert_eq!(game.index_to_point(90), (0, 9));
    assert_eq!(game.point_to_index((9, 0)), 9);
    for i in 0..100 {
        assert_eq!(game.point_to_index(game.index_to_point(i)), i);
    }
}
