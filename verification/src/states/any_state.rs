use vstd::prelude::*;

use crate::error::StateError;
use crate::state::{outcome_of, EventResult, InputEvent, Key, MouseButton, State, UpdateResult};
use crate::states::game_state::GameState;
use crate::states::pipeline_state::PipelineState;
use crate::states::ui_state::UiState;

verus! {

/// The closed set of states this game puts on one stack.
///
/// The stack runtime is generic over a single state type, so mixing a UI
/// overlay with the gameplay state underneath takes a sum of the concrete
/// states; every method passes straight through to the wrapped state.
pub enum AnyState {
    Game(GameState),
    Ui(UiState),
    Pipeline(PipelineState),
}

/// A gameplay update result, re-wrapped for the stack of [`AnyState`].
pub open spec fn lift_game(r: Result<UpdateResult<GameState>, StateError>) -> Result<
    UpdateResult<AnyState>,
    StateError,
> {
    match r {
        Ok(UpdateResult::LetThrough) => Ok(UpdateResult::LetThrough),
        Ok(UpdateResult::Block) => Ok(UpdateResult::Block),
        Ok(UpdateResult::Swap(s)) => Ok(UpdateResult::Swap(AnyState::Game(s))),
        Ok(UpdateResult::Push(s)) => Ok(UpdateResult::Push(AnyState::Game(s))),
        Ok(UpdateResult::Pop) => Ok(UpdateResult::Pop),
        Err(e) => Err(e),
    }
}

/// A UI update result, re-wrapped for the stack of [`AnyState`].
pub open spec fn lift_ui(r: Result<UpdateResult<UiState>, StateError>) -> Result<
    UpdateResult<AnyState>,
    StateError,
> {
    match r {
        Ok(UpdateResult::LetThrough) => Ok(UpdateResult::LetThrough),
        Ok(UpdateResult::Block) => Ok(UpdateResult::Block),
        Ok(UpdateResult::Swap(s)) => Ok(UpdateResult::Swap(AnyState::Ui(s))),
        Ok(UpdateResult::Push(s)) => Ok(UpdateResult::Push(AnyState::Ui(s))),
        Ok(UpdateResult::Pop) => Ok(UpdateResult::Pop),
        Err(e) => Err(e),
    }
}

/// A pipeline update result, re-wrapped for the stack of [`AnyState`].
pub open spec fn lift_pipeline(r: Result<UpdateResult<PipelineState>, StateError>) -> Result<
    UpdateResult<AnyState>,
    StateError,
> {
    match r {
        Ok(UpdateResult::LetThrough) => Ok(UpdateResult::LetThrough),
        Ok(UpdateResult::Block) => Ok(UpdateResult::Block),
        Ok(UpdateResult::Swap(s)) => Ok(UpdateResult::Swap(AnyState::Pipeline(s))),
        Ok(UpdateResult::Push(s)) => Ok(UpdateResult::Push(AnyState::Pipeline(s))),
        Ok(UpdateResult::Pop) => Ok(UpdateResult::Pop),
        Err(e) => Err(e),
    }
}

impl State for AnyState {
    open spec fn lets_draw_through(&self) -> bool {
        match self {
            AnyState::Game(g) => g.lets_draw_through(),
            AnyState::Ui(u) => u.lets_draw_through(),
            AnyState::Pipeline(p) => p.lets_draw_through(),
        }
    }

    open spec fn update_rel(&self, post: Self, r: Result<UpdateResult<Self>, StateError>) -> bool {
        match self {
            AnyState::Game(g) => exists|
                g2: GameState,
                r2: Result<UpdateResult<GameState>, StateError>,
            |
                {
                    &&& post == AnyState::Game(g2)
                    &&& #[trigger] g.update_rel(g2, r2)
                    &&& r == lift_game(r2)
                },
            AnyState::Ui(u) => exists|u2: UiState, r2: Result<UpdateResult<UiState>, StateError>|
                {
                    &&& post == AnyState::Ui(u2)
                    &&& #[trigger] u.update_rel(u2, r2)
                    &&& r == lift_ui(r2)
                },
            AnyState::Pipeline(p) => exists|
                p2: PipelineState,
                r2: Result<UpdateResult<PipelineState>, StateError>,
            |
                {
                    &&& post == AnyState::Pipeline(p2)
                    &&& #[trigger] p.update_rel(p2, r2)
                    &&& r == lift_pipeline(r2)
                },
        }
    }

    open spec fn draw_rel(&self, post: Self, outcome: Option<StateError>) -> bool {
        match self {
            AnyState::Game(g) => exists|g2: GameState|
                post == AnyState::Game(g2) && #[trigger] g.draw_rel(g2, outcome),
            AnyState::Ui(u) => exists|u2: UiState|
                post == AnyState::Ui(u2) && #[trigger] u.draw_rel(u2, outcome),
            AnyState::Pipeline(p) => exists|p2: PipelineState|
                post == AnyState::Pipeline(p2) && #[trigger] p.draw_rel(p2, outcome),
        }
    }

    open spec fn event_rel(
        &self,
        ev: InputEvent,
        post: Self,
        r: Result<EventResult, StateError>,
    ) -> bool {
        match self {
            AnyState::Game(g) => exists|g2: GameState|
                post == AnyState::Game(g2) && #[trigger] g.event_rel(ev, g2, r),
            AnyState::Ui(u) => exists|u2: UiState|
                post == AnyState::Ui(u2) && #[trigger] u.event_rel(ev, u2, r),
            AnyState::Pipeline(p) => exists|p2: PipelineState|
                post == AnyState::Pipeline(p2) && #[trigger] p.event_rel(ev, p2, r),
        }
    }

    fn update(&mut self) -> (r: Result<UpdateResult<Self>, StateError>) {
        match self {
            AnyState::Game(g) => {
                let ghost pre_inner: GameState = *g;
                let r2 = g.update();
                let ghost g2: GameState = *g;
                let ghost r2v: Result<UpdateResult<GameState>, StateError> = r2;
                let out: Result<UpdateResult<AnyState>, StateError> = match r2 {
                    Ok(UpdateResult::LetThrough) => Ok(UpdateResult::LetThrough),
                    Ok(UpdateResult::Block) => Ok(UpdateResult::Block),
                    Ok(UpdateResult::Swap(s)) => Ok(UpdateResult::Swap(AnyState::Game(s))),
                    Ok(UpdateResult::Push(s)) => Ok(UpdateResult::Push(AnyState::Game(s))),
                    Ok(UpdateResult::Pop) => Ok(UpdateResult::Pop),
                    Err(e) => Err(e),
                };
                proof {
                    assert(pre_inner.update_rel(g2, r2v));
                    assert(out == lift_game(r2v));
                }
                out
            },
            AnyState::Ui(u) => {
                let ghost pre_inner: UiState = *u;
                let r2 = u.update();
                let ghost u2: UiState = *u;
                let ghost r2v: Result<UpdateResult<UiState>, StateError> = r2;
                let out: Result<UpdateResult<AnyState>, StateError> = match r2 {
                    Ok(UpdateResult::LetThrough) => Ok(UpdateResult::LetThrough),
                    Ok(UpdateResult::Block) => Ok(UpdateResult::Block),
                    Ok(UpdateResult::Swap(s)) => Ok(UpdateResult::Swap(AnyState::Ui(s))),
                    Ok(UpdateResult::Push(s)) => Ok(UpdateResult::Push(AnyState::Ui(s))),
                    Ok(UpdateResult::Pop) => Ok(UpdateResult::Pop),
                    Err(e) => Err(e),
                };
                proof {
                    assert(pre_inner.update_rel(u2, r2v));
                    assert(out == lift_ui(r2v));
                }
                out
            },
            AnyState::Pipeline(p) => {
                let ghost pre_inner: PipelineState = *p;
                let r2 = p.update();
                let ghost p2: PipelineState = *p;
                let ghost r2v: Result<UpdateResult<PipelineState>, StateError> = r2;
                let out: Result<UpdateResult<AnyState>, StateError> = match r2 {
                    Ok(UpdateResult::LetThrough) => Ok(UpdateResult::LetThrough),
                    Ok(UpdateResult::Block) => Ok(UpdateResult::Block),
                    Ok(UpdateResult::Swap(s)) => Ok(UpdateResult::Swap(AnyState::Pipeline(s))),
                    Ok(UpdateResult::Push(s)) => Ok(UpdateResult::Push(AnyState::Pipeline(s))),
                    Ok(UpdateResult::Pop) => Ok(UpdateResult::Pop),
                    Err(e) => Err(e),
                };
                proof {
                    assert(pre_inner.update_rel(p2, r2v));
                    assert(out == lift_pipeline(r2v));
                }
                out
            },
        }
    }

    fn draw(&mut self) -> (r: Result<(), StateError>) {
        match self {
            AnyState::Game(g) => {
                let ghost pre_inner: GameState = *g;
                let r2 = g.draw();
                proof {
                    let ghost g2: GameState = *g;
                    assert(pre_inner.draw_rel(g2, outcome_of(r2)));
                }
                r2
            },
            AnyState::Ui(u) => {
                let ghost pre_inner: UiState = *u;
                let r2 = u.draw();
                proof {
                    let ghost u2: UiState = *u;
                    assert(pre_inner.draw_rel(u2, outcome_of(r2)));
                }
                r2
            },
            AnyState::Pipeline(p) => {
                let ghost pre_inner: PipelineState = *p;
                let r2 = p.draw();
                proof {
                    let ghost p2: PipelineState = *p;
                    assert(pre_inner.draw_rel(p2, outcome_of(r2)));
                }
                r2
            },
        }
    }

    fn let_through_draw(&self) -> (r: bool) {
        match self {
            AnyState::Game(g) => g.let_through_draw(),
            AnyState::Ui(u) => u.let_through_draw(),
            AnyState::Pipeline(p) => p.let_through_draw(),
        }
    }

    fn mouse_motion_event(&mut self, x: i32, y: i32, dx: i32, dy: i32) -> (r: Result<
        EventResult,
        StateError,
    >) {
        match self {
            AnyState::Game(g) => g.mouse_motion_event(x, y, dx, dy),
            AnyState::Ui(u) => u.mouse_motion_event(x, y, dx, dy),
            AnyState::Pipeline(p) => p.mouse_motion_event(x, y, dx, dy),
        }
    }

    fn mouse_button_down_event(&mut self, button: MouseButton, x: i32, y: i32) -> (r: Result<
        EventResult,
        StateError,
    >) {
        match self {
            AnyState::Game(g) => g.mouse_button_down_event(button, x, y),
            AnyState::Ui(u) => u.mouse_button_down_event(button, x, y),
            AnyState::Pipeline(p) => p.mouse_button_down_event(button, x, y),
        }
    }

    fn mouse_button_up_event(&mut self, button: MouseButton, x: i32, y: i32) -> (r: Result<
        EventResult,
        StateError,
    >) {
        match self {
            AnyState::Game(g) => g.mouse_button_up_event(button, x, y),
            AnyState::Ui(u) => u.mouse_button_up_event(button, x, y),
            AnyState::Pipeline(p) => p.mouse_button_up_event(button, x, y),
        }
    }

    fn key_up_event(&mut self, key: Key) -> (r: Result<EventResult, StateError>) {
        match self {
            AnyState::Game(g) => g.key_up_event(key),
            AnyState::Ui(u) => u.key_up_event(key),
            AnyState::Pipeline(p) => p.key_up_event(key),
        }
    }
}

} // verus!
