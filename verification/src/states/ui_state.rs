use vstd::prelude::*;

use crate::error::StateError;
use crate::state::{
    blocks_unhandled, EventResult, InputEvent, State, UpdateResult,
};

verus! {

/// A UI overlay state: a menu or a game-over panel sitting on top of the
/// gameplay state.
///
/// It is transparent to drawing, so the game stays visible underneath.
/// While `is_menu` holds it acts modally and blocks the update tick;
/// releasing a mouse button anywhere dismisses it by setting `quit`, and
/// the following update tick answers `Pop`.  What the overlay looks like —
/// panel, sprites, labels — is the host's concern.
#[derive(Clone, Copy, Debug, PartialEq, Eq, Structural)]
pub struct UiState {
    /// Whether the overlay acts modally, blocking update ticks.
    pub is_menu: bool,
    /// Whether the overlay has been dismissed and will pop itself.
    pub quit: bool,
}

impl UiState {
    /// Create an overlay; `is_menu` decides whether it blocks the update
    /// tick while it is up.
    pub fn new(is_menu: bool) -> (r: UiState)
        ensures
            r.is_menu == is_menu,
            !r.quit,
    {
        UiState { is_menu, quit: false }
    }
}

impl State for UiState {
    /// The state beneath the overlay stays visible.
    open spec fn lets_draw_through(&self) -> bool {
        true
    }

    open spec fn update_rel(&self, post: Self, r: Result<UpdateResult<Self>, StateError>) -> bool {
        if self.quit {
            post == *self && r == Ok::<UpdateResult<Self>, StateError>(UpdateResult::Pop)
        } else if self.is_menu {
            post == *self && r == Ok::<UpdateResult<Self>, StateError>(UpdateResult::Block)
        } else {
            post == *self && r == Ok::<UpdateResult<Self>, StateError>(UpdateResult::LetThrough)
        }
    }

    open spec fn draw_rel(&self, post: Self, outcome: Option<StateError>) -> bool {
        post == *self && outcome is None
    }

    open spec fn event_rel(
        &self,
        ev: InputEvent,
        post: Self,
        r: Result<EventResult, StateError>,
    ) -> bool {
        match ev {
            InputEvent::MouseMotion { .. } => post == *self && r == Ok::<
                EventResult,
                StateError,
            >(EventResult::Block),
            InputEvent::MouseButtonDown { .. } => post == *self && r == Ok::<
                EventResult,
                StateError,
            >(EventResult::Block),
            InputEvent::MouseButtonUp { .. } => post == (UiState { quit: true, ..*self }) && r
                == Ok::<EventResult, StateError>(EventResult::Block),
            InputEvent::KeyUp { .. } => blocks_unhandled(*self, post, r),
        }
    }

    /// Pop once dismissed; block while modal; otherwise let the states
    /// below tick too.
    fn update(&mut self) -> (r: Result<UpdateResult<Self>, StateError>) {
        if self.quit {
            return Ok(UpdateResult::Pop);
        }
        if self.is_menu {
            Ok(UpdateResult::Block)
        } else {
            Ok(UpdateResult::LetThrough)
        }
    }

    /// The overlay's visuals are drawn by the host.
    fn draw(&mut self) -> (r: Result<(), StateError>) {
        Ok(())
    }

    fn let_through_draw(&self) -> (r: bool) {
        true
    }

    fn mouse_motion_event(&mut self, _x: i32, _y: i32, _dx: i32, _dy: i32) -> (r: Result<
        EventResult,
        StateError,
    >) {
        Ok(EventResult::Block)
    }

    fn mouse_button_down_event(&mut self, _button: crate::state::MouseButton, _x: i32, _y: i32) -> (r:
        Result<EventResult, StateError>) {
        Ok(EventResult::Block)
    }

    /// Releasing a mouse button dismisses the overlay: the next update tick
    /// answers `Pop`.
    fn mouse_button_up_event(&mut self, _button: crate::state::MouseButton, _x: i32, _y: i32) -> (r:
        Result<EventResult, StateError>) {
        self.quit = true;
        Ok(EventResult::Block)
    }

    fn key_up_event(&mut self, _key: crate::state::Key) -> (r: Result<EventResult, StateError>) {
        Ok(EventResult::Block)
    }
}

/// The overlay leaves key events unhandled, and an unhandled event blocks
/// without changing the state.
pub proof fn lemma_ui_key_events_unhandled(
    s: UiState,
    key: crate::state::Key,
    post: UiState,
    r: Result<EventResult, StateError>,
)
    requires
        s.event_rel((InputEvent::KeyUp { key }), post, r),
    ensures
        post == s,
        r == Ok::<EventResult, StateError>(EventResult::Block),
{
}

} // verus!
