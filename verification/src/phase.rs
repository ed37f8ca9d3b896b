//! The phases of a game and what each of them does on a tick.

use vstd::prelude::*;

pub mod preparing;
pub mod ready;
pub mod running;
pub mod setup;

verus! {

/// The phase a game is in.
#[derive(Clone, Copy, Debug, PartialEq, Eq, Hash, Structural)]
pub enum PhaseState {
    Setup,
    Ready,
    Preparing,
    Running,
    Paused,
    GameOver,
}

impl Default for PhaseState {
    fn default() -> (state: PhaseState)
        ensures
            state == PhaseState::Setup,
    {
        PhaseState::Setup
    }
}

/// A phase of the game, known by the state in which it is active.
pub trait PhaseBase {
    /// The state in which this phase is active.
    spec fn spec_state(&self) -> PhaseState;

    fn state(&self) -> (state: PhaseState)
        ensures
            state == self.spec_state(),
    ;
}

} // verus!
