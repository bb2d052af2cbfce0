use vstd::prelude::*;

use crate::error::StateError;

verus! {

/// The result returned from an event handling hook.
#[derive(Clone, Copy, Debug, PartialEq, Eq, Structural)]
pub enum EventResult {
    /// Let the event through to the state below this one.
    LetThrough,
    /// Block this event from passing to the state below this one.
    Block,
}

/// The result returned from a state's `update`.
///
/// Besides blocking the update or letting it run through to the state below,
/// a state can ask the stack to restructure itself.  Every variant other than
/// `LetThrough` also stops the update walk for this frame, so at most one
/// structural change happens per frame.
#[derive(Debug)]
pub enum UpdateResult<S> {
    /// Also update the state below this one in the stack.
    LetThrough,
    /// Keep the states below this one from updating this frame.
    Block,
    /// Replace this state's own slot with the contained state.
    Swap(S),
    /// Insert the contained state at the top of the stack.
    Push(S),
    /// Remove the topmost state from the stack.
    Pop,
}

/// A mouse button, as the host reports it.
#[derive(Clone, Copy, Debug, PartialEq, Eq, Structural)]
pub enum MouseButton {
    Left,
    Right,
    Middle,
    Other(u16),
}

/// The keys the states distinguish; everything else is `Other`.
#[derive(Clone, Copy, Debug, PartialEq, Eq, Structural)]
pub enum Key {
    Return,
    Escape,
    Other,
}

/// An input event as it travels down the stack.
///
/// The four input hooks of [`State`] share one specification relation,
/// [`State::event_rel`], and this type names the event that relation speaks
/// about.
#[derive(Clone, Copy, Debug, PartialEq, Eq, Structural)]
pub enum InputEvent {
    MouseMotion { x: i32, y: i32, dx: i32, dy: i32 },
    MouseButtonDown { button: MouseButton, x: i32, y: i32 },
    MouseButtonUp { button: MouseButton, x: i32, y: i32 },
    KeyUp { key: Key },
}

/// The outcome a `draw` call reports: `None` on success, the error
/// otherwise.  Stated over `Option` so contracts never have to mention the
/// unit payload of a successful `Result`.
pub open spec fn outcome_of(r: Result<(), StateError>) -> Option<StateError> {
    match r {
        Ok(_) => None,
        Err(e) => Some(e),
    }
}

/// The contract of an event hook that a state leaves unhandled: the state
/// keeps its value and the event is blocked.
///
/// Blocking by default means a freshly written state behaves like an opaque
/// modal layer and never accidentally leaks input to the states beneath it;
/// a state has to opt in to pass-through by handling the event itself.
pub open spec fn blocks_unhandled<S>(pre: S, post: S, r: Result<EventResult, StateError>) -> bool {
    &&& post == pre
    &&& r == Ok::<EventResult, StateError>(EventResult::Block)
}

/// One layer of the state stack.
///
/// Each executable method is tied to a specification relation that the
/// implementing type defines, so that the stack runtime can state exactly
/// how a whole frame relates to the behaviour of the individual states.
pub trait State: Sized {
    /// Whether the state below this one in the stack should be drawn as
    /// well.  A state that keeps this `false` is an opaque layer.
    spec fn lets_draw_through(&self) -> bool;

    /// Which outcomes `update` may produce: how the new value of the state
    /// relates to the old one, together with the returned result.
    spec fn update_rel(&self, post: Self, r: Result<UpdateResult<Self>, StateError>) -> bool;

    /// Which outcomes `draw` may produce; the outcome is `None` on success
    /// and the error otherwise.
    spec fn draw_rel(&self, post: Self, outcome: Option<StateError>) -> bool;

    /// Which outcomes the input hooks may produce for a given event.  A
    /// state that leaves an event unhandled specifies
    /// [`blocks_unhandled`] for it.
    spec fn event_rel(&self, ev: InputEvent, post: Self, r: Result<EventResult, StateError>) -> bool;

    /// Advance this layer's logic one tick.
    fn update(&mut self) -> (r: Result<UpdateResult<Self>, StateError>)
        ensures
            old(self).update_rel(*final(self), r),
    ;

    /// Run this layer's share of a frame's draw pass.  Drawing never changes
    /// whether the layer is transparent, so the visible prefix of the stack
    /// is stable across one draw pass.
    fn draw(&mut self) -> (r: Result<(), StateError>)
        ensures
            old(self).draw_rel(*final(self), outcome_of(r)),
            final(self).lets_draw_through() == old(self).lets_draw_through(),
    ;

    /// Report whether the state below this one should also be drawn.
    fn let_through_draw(&self) -> (r: bool)
        ensures
            r == self.lets_draw_through(),
    ;

    /// Called when the mouse moved.
    fn mouse_motion_event(&mut self, x: i32, y: i32, dx: i32, dy: i32) -> (r: Result<
        EventResult,
        StateError,
    >)
        ensures
            old(self).event_rel((InputEvent::MouseMotion { x, y, dx, dy }), *final(self), r),
    ;

    /// Called when a mouse button was pressed.
    fn mouse_button_down_event(&mut self, button: MouseButton, x: i32, y: i32) -> (r: Result<
        EventResult,
        StateError,
    >)
        ensures
            old(self).event_rel((InputEvent::MouseButtonDown { button, x, y }), *final(self), r),
    ;

    /// Called when a mouse button was released.
    fn mouse_button_up_event(&mut self, button: MouseButton, x: i32, y: i32) -> (r: Result<
        EventResult,
        StateError,
    >)
        ensures
            old(self).event_rel((InputEvent::MouseButtonUp { button, x, y }), *final(self), r),
    ;

    /// Called when a key was released.
    fn key_up_event(&mut self, key: Key) -> (r: Result<EventResult, StateError>)
        ensures
            old(self).event_rel((InputEvent::KeyUp { key }), *final(self), r),
    ;
}

} // verus!
