use ggsweep::error::StateError;
use ggsweep::state::{EventResult, Key, MouseButton, State, UpdateResult};
use ggsweep::states::pipeline_state::{GenProgress, PipelineState};

#[test]
fn pipeline_walks_its_phases_to_done() {
    let mut p = PipelineState::new();
    assert_eq!(p.progress, GenProgress::Setup);
    assert!(!p.prepared);

    // setup prepares the render resources and blocks the frame
    assert!(matches!(p.update(), Ok(UpdateResult::Block)));
    assert_eq!(p.progress, GenProgress::Draw);
    assert!(p.prepared);

    // the draw pass renders the numbers and pauses to show them
    assert_eq!(p.draw(), Ok(()));
    assert_eq!(p.progress, GenProgress::Show);

    // waiting in the show phase
    assert!(matches!(p.update(), Ok(UpdateResult::Block)));
    assert_eq!(p.progress, GenProgress::Show);

    // return gates the way on to saving
    assert_eq!(p.key_up_event(Key::Return), Ok(EventResult::LetThrough));
    assert_eq!(p.progress, GenProgress::Save);

    // the save tick finishes the job
    assert!(matches!(p.update(), Ok(UpdateResult::Block)));
    assert_eq!(p.progress, GenProgress::Done);

    // and once done the pipeline pops itself
    assert!(matches!(p.update(), Ok(UpdateResult::Pop)));
}

#[test]
fn escape_skips_saving() {
    let mut p = PipelineState::new();
    p.update().unwrap();
    p.draw().unwrap();
    assert_eq!(p.progress, GenProgress::Show);
    assert_eq!(p.key_up_event(Key::Escape), Ok(EventResult::LetThrough));
    assert_eq!(p.progress, GenProgress::Done);
    assert!(matches!(p.update(), Ok(UpdateResult::Pop)));
}

#[test]
fn other_keys_do_not_gate_the_show_phase() {
    let mut p = PipelineState::new();
    p.update().unwrap();
    p.draw().unwrap();
    assert_eq!(p.key_up_event(Key::Other), Ok(EventResult::LetThrough));
    assert_eq!(p.progress, GenProgress::Show);
}

#[test]
fn keys_outside_the_show_phase_do_nothing() {
    let mut p = PipelineState::new();
    assert_eq!(p.key_up_event(Key::Return), Ok(EventResult::LetThrough));
    assert_eq!(p.progress, GenProgress::Setup);
}

#[test]
fn unprepared_phases_are_logic_errors() {
    let mut save_without_setup = PipelineState {
        progress: GenProgress::Save,
        prepared: false,
    };
    assert!(matches!(save_without_setup.update(), Err(StateError::Logic)));
    assert_eq!(save_without_setup.progress, GenProgress::Save);

    let mut draw_without_setup = PipelineState {
        progress: GenProgress::Draw,
        prepared: false,
    };
    assert_eq!(draw_without_setup.draw(), Err(StateError::Logic));
    assert_eq!(draw_without_setup.progress, GenProgress::Draw);
}

#[test]
fn pipeline_blocks_mouse_events() {
    let mut p = PipelineState::new();
    assert_eq!(p.mouse_motion_event(1, 2, 3, 4), Ok(EventResult::Block));
    assert_eq!(
        p.mouse_button_down_event(MouseButton::Left, 1, 2),
        Ok(EventResult::Block)
    );
    assert_eq!(
        p.mouse_button_up_event(MouseButton::Right, 1, 2),
        Ok(EventResult::Block)
    );
    assert_eq!(p.progress, GenProgress::Setup);
    assert!(!p.let_through_draw());
}
