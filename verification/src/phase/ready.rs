//! The phase active in the state `Ready`.

use crate::phase::{PhaseBase, PhaseState};
use vstd::prelude::*;

verus! {

/// The phase active in the state `Ready`.
pub struct Phase;

impl PhaseBase for Phase {
    open spec fn spec_state(&self) -> PhaseState {
        PhaseState::Ready
    }

    fn state(&self) -> (state: PhaseState) {
        PhaseState::Ready
    }
}

} // verus!
