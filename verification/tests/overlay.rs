use ggsweep::config::game_config::{GameColors, GameConfig};
use ggsweep::state::{EventResult, Key, MouseButton, State, UpdateResult};
use ggsweep::states::any_state::AnyState;
use ggsweep::states::game_state::GameState;
use ggsweep::states::main_state::MainState;
use ggsweep::states::ui_state::UiState;

fn small_config() -> GameConfig {
    GameConfig {
        game_size: (5, 5),
        number_of_mines: 3,
        square_size: 16,
        colors: GameColors {
            square: (200, 200, 200),
            selected_square: (255, 255, 150),
            mine_square: (255, 0, 0),
        },
    }
}

fn menu_over_game() -> MainState<AnyState> {
    let game = GameState::new(small_config()).expect("valid config");
    let mut stack = MainState::new(AnyState::Game(game));
    stack.apply_update_result(0, UpdateResult::Push(AnyState::Ui(UiState::new(true))));
    stack
}

#[test]
fn modal_overlay_blocks_updates_until_dismissed() {
    let mut stack = menu_over_game();
    assert_eq!(stack.len(), 2);
    assert!(matches!(stack.get(0), AnyState::Ui(_)));
    assert!(matches!(stack.get(1), AnyState::Game(_)));

    // while the menu is up, updating restructures nothing
    assert_eq!(stack.update(), Ok(()));
    assert_eq!(stack.len(), 2);
    assert!(matches!(stack.get(0), AnyState::Ui(_)));

    // a mouse release dismisses the overlay
    stack.mouse_button_up_event(MouseButton::Left, 40, 40);
    match stack.get(0) {
        AnyState::Ui(u) => assert!(u.quit),
        _ => panic!("the overlay must still be on top"),
    }

    // the next update pops it, leaving the game on top
    assert_eq!(stack.update(), Ok(()));
    assert_eq!(stack.len(), 1);
    assert!(matches!(stack.get(0), AnyState::Game(_)));

    // and the following frame's walk runs the game itself
    assert_eq!(stack.update(), Ok(()));
    assert_eq!(stack.len(), 1);
    assert_eq!(stack.latched_error(), None);
}

#[test]
fn overlay_lets_the_game_stay_visible() {
    let mut stack = menu_over_game();
    // the overlay is transparent, the game below is opaque: both are drawn,
    // the game first
    assert_eq!(stack.visible_count(), 2);
    let order = stack.draw().expect("draw succeeds");
    assert_eq!(order, vec![1, 0]);
}

#[test]
fn overlay_blocks_input_to_the_game() {
    let mut stack = menu_over_game();
    stack.mouse_motion_event(20, 20, 0, 0);
    match stack.get(1) {
        AnyState::Game(g) => assert_eq!(g.mouse_index, None),
        _ => panic!("the game must be below the overlay"),
    }
}

#[test]
fn non_modal_overlay_lets_updates_through() {
    let mut ui = UiState::new(false);
    assert!(matches!(ui.update(), Ok(UpdateResult::LetThrough)));
    assert!(ui.let_through_draw());
    assert_eq!(ui.key_up_event(Key::Return), Ok(EventResult::Block));
    assert!(!ui.quit);
}

#[test]
fn dismissed_overlay_pops_itself() {
    let mut ui = UiState::new(true);
    assert!(matches!(ui.update(), Ok(UpdateResult::Block)));
    assert_eq!(
        ui.mouse_button_up_event(MouseButton::Left, 1, 2),
        Ok(EventResult::Block)
    );
    assert!(ui.quit);
    assert!(matches!(ui.update(), Ok(UpdateResult::Pop)));
}
