use vstd::prelude::*;

verus! {

/// The kinds of fatal errors a state can raise.
///
/// Every error is terminal for the run: the runtime either returns it to the
/// host straight away (update and draw) or latches it and replays it from the
/// next update call (input hooks, which have no direct error channel to the
/// host).
#[derive(Clone, Copy, Debug, PartialEq, Eq, Structural)]
pub enum StateError {
    /// The host drawing context failed.
    Rendering,
    /// A required asset is missing or invalid, such as a sprite name that the
    /// loaded sheet does not know.
    Resource,
    /// Configuration content is malformed.
    Config,
    /// An internal invariant was violated, such as the asset pipeline
    /// reaching its draw phase without its precomputed resources.
    Logic,
}

} // verus!
