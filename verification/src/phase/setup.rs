//! The phase active in the state `Setup`.

use crate::phase::{PhaseBase, PhaseState};
use vstd::prelude::*;

verus! {

/// The phase active in the state `Setup`.
pub struct Phase;

impl PhaseBase for Phase {
    open spec fn spec_state(&self) -> PhaseState {
        PhaseState::Setup
    }

    fn state(&self) -> (state: PhaseState) {
        PhaseState::Setup
    }
}

} // verus!
