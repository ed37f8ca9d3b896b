//! The phase active in the state `Running`.

use crate::phase::{PhaseBase, PhaseState};
use vstd::prelude::*;

verus! {

/// The phase active in the state `Running`.
pub struct Phase;

impl PhaseBase for Phase {
    open spec fn spec_state(&self) -> PhaseState {
        PhaseState::Running
    }

    fn state(&self) -> (state: PhaseState) {
        PhaseState::Running
    }
}

} // verus!
