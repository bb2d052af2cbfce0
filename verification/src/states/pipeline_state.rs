use vstd::prelude::*;

use crate::error::StateError;
use crate::state::{
    blocks_unhandled, EventResult, InputEvent, Key, MouseButton, State, UpdateResult,
};

verus! {

/// Where the asset pipeline currently stands.
#[derive(Clone, Copy, Debug, PartialEq, Eq, Structural)]
pub enum GenProgress {
    Setup,
    Draw,
    Show,
    Save,
    Done,
}

/// Whether the pipeline pauses to show its result and waits for the
/// operator before saving.
pub const PAUSE: bool = true;

/// The asset-generation pipeline as a state on the stack: a one-shot batch
/// job driven through the same update/draw/input contract as the
/// interactive states.
///
/// Each phase blocks the update tick while work remains; `prepared` records
/// that the render resources for the number sprites are in place, which
/// setup establishes and the draw and save phases require.  In the `Show`
/// phase a key release gates the way forward: return saves, escape skips
/// straight to done.  Once done, the state pops itself off the stack.  The
/// actual canvas and file work is the host's, mirroring these phases.
#[derive(Clone, Copy, Debug, PartialEq, Eq, Structural)]
pub struct PipelineState {
    /// The current phase.
    pub progress: GenProgress,
    /// Whether the render resources are in place.
    pub prepared: bool,
}

/// Where a key release moves the pipeline: only in the `Show` phase does it
/// act, with return going on to `Save` and escape giving up and going to
/// `Done`.
pub open spec fn key_transition(progress: GenProgress, key: Key) -> GenProgress {
    if progress is Show {
        match key {
            Key::Return => GenProgress::Save,
            Key::Escape => GenProgress::Done,
            Key::Other => GenProgress::Show,
        }
    } else {
        progress
    }
}

impl PipelineState {
    /// A fresh pipeline, about to set itself up.
    pub fn new() -> (r: PipelineState)
        ensures
            r.progress == GenProgress::Setup,
            !r.prepared,
    {
        PipelineState { progress: GenProgress::Setup, prepared: false }
    }
}

impl State for PipelineState {
    /// The pipeline is an opaque layer.
    open spec fn lets_draw_through(&self) -> bool {
        false
    }

    open spec fn update_rel(&self, post: Self, r: Result<UpdateResult<Self>, StateError>) -> bool {
        match self.progress {
            GenProgress::Setup => post == (PipelineState {
                progress: GenProgress::Draw,
                prepared: true,
            }) && r == Ok::<UpdateResult<Self>, StateError>(UpdateResult::Block),
            GenProgress::Draw => post == *self && r == Ok::<UpdateResult<Self>, StateError>(
                UpdateResult::Block,
            ),
            GenProgress::Show => post == *self && r == Ok::<UpdateResult<Self>, StateError>(
                UpdateResult::Block,
            ),
            GenProgress::Save => if self.prepared {
                post == (PipelineState { progress: GenProgress::Done, ..*self }) && r == Ok::<
                    UpdateResult<Self>,
                    StateError,
                >(UpdateResult::Block)
            } else {
                post == *self && r == Err::<UpdateResult<Self>, StateError>(StateError::Logic)
            },
            GenProgress::Done => post == *self && r == Ok::<UpdateResult<Self>, StateError>(
                UpdateResult::Pop,
            ),
        }
    }

    open spec fn draw_rel(&self, post: Self, outcome: Option<StateError>) -> bool {
        if self.progress is Draw {
            if self.prepared {
                post == (PipelineState {
                    progress: if PAUSE {
                        GenProgress::Show
                    } else {
                        GenProgress::Save
                    },
                    ..*self
                }) && outcome is None
            } else {
                post == *self && outcome == Some(StateError::Logic)
            }
        } else {
            post == *self && outcome is None
        }
    }

    open spec fn event_rel(
        &self,
        ev: InputEvent,
        post: Self,
        r: Result<EventResult, StateError>,
    ) -> bool {
        match ev {
            InputEvent::KeyUp { key } => post == (PipelineState {
                progress: key_transition(self.progress, key),
                ..*self
            }) && r == Ok::<EventResult, StateError>(EventResult::LetThrough),
            _ => blocks_unhandled(*self, post, r),
        }
    }

    /// Drive the phase machine one tick: set up, wait for the draw and
    /// show phases, mark the save done, and pop once finished.  Reaching
    /// the save phase without the render resources is a logic error.
    fn update(&mut self) -> (r: Result<UpdateResult<Self>, StateError>) {
        match self.progress {
            GenProgress::Setup => {
                self.prepared = true;
                self.progress = GenProgress::Draw;
                Ok(UpdateResult::Block)
            },
            GenProgress::Draw => Ok(UpdateResult::Block),
            GenProgress::Show => Ok(UpdateResult::Block),
            GenProgress::Save => {
                if !self.prepared {
                    return Err(StateError::Logic);
                }
                self.progress = GenProgress::Done;
                Ok(UpdateResult::Block)
            },
            GenProgress::Done => Ok(UpdateResult::Pop),
        }
    }

    /// In the draw phase, one pass renders the number sprites to the
    /// canvas and moves on — to the show phase when pausing for the
    /// operator, straight to saving otherwise.  Entering it without the
    /// render resources is a logic error.
    fn draw(&mut self) -> (r: Result<(), StateError>) {
        if let GenProgress::Draw = self.progress {
            if !self.prepared {
                return Err(StateError::Logic);
            }
            if PAUSE {
                self.progress = GenProgress::Show;
            } else {
                self.progress = GenProgress::Save;
            }
        }
        Ok(())
    }

    fn let_through_draw(&self) -> (r: bool) {
        false
    }

    fn mouse_motion_event(&mut self, _x: i32, _y: i32, _dx: i32, _dy: i32) -> (r: Result<
        EventResult,
        StateError,
    >) {
        Ok(EventResult::Block)
    }

    fn mouse_button_down_event(&mut self, _button: MouseButton, _x: i32, _y: i32) -> (r: Result<
        EventResult,
        StateError,
    >) {
        Ok(EventResult::Block)
    }

    fn mouse_button_up_event(&mut self, _button: MouseButton, _x: i32, _y: i32) -> (r: Result<
        EventResult,
        StateError,
    >) {
        Ok(EventResult::Block)
    }

    /// While the result is being shown, a key release decides how to go
    /// on; the event itself is passed along either way.
    fn key_up_event(&mut self, key: Key) -> (r: Result<EventResult, StateError>) {
        if let GenProgress::Show = self.progress {
            match key {
                Key::Return => {
                    self.progress = GenProgress::Save;
                },
                Key::Escape => {
                    self.progress = GenProgress::Done;
                },
                Key::Other => {},
            }
        }
        Ok(EventResult::LetThrough)
    }
}

/// The pipeline leaves every mouse event unhandled, and an unhandled event
/// blocks without changing the state; together with the opaque
/// `lets_draw_through`, a freshly created pipeline neither leaks input nor
/// exposes what is beneath it.
pub proof fn lemma_pipeline_mouse_events_unhandled(
    s: PipelineState,
    ev: InputEvent,
    post: PipelineState,
    r: Result<EventResult, StateError>,
)
    requires
        !(ev is KeyUp),
        s.event_rel(ev, post, r),
    ensures
        post == s,
        r == Ok::<EventResult, StateError>(EventResult::Block),
        !s.lets_draw_through(),
{
}

} // verus!
