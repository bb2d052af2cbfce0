//! A Minesweeper-style game core built around a state-stack runtime.
//!
//! The heart of the crate is [`states::main_state::MainState`]: an ordered
//! stack of interactive states that receives update, draw and input events
//! from a host loop, fans each one out across the stack with pass-through
//! semantics, and applies at most one structural change (swap, push, pop)
//! per frame.  Everything the host needs to render is handed back as plain
//! data; the rendering backend itself stays outside this crate.

pub mod config;
pub mod error;
pub mod sprite_sheet;
pub mod state;
pub mod states;
