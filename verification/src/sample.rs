//! What the volume sampler reports about one target on one tick.

use vstd::prelude::*;

verus! {

/// One reading of a target's audio session.
#[derive(Clone, Copy, Debug, PartialEq, Eq, Structural)]
pub enum SampleResult {
    /// The session is audible; the level is in millionths of full scale.
    Active(u32),
    /// The session is silent or gone: no information this tick.
    Inactive,
}

impl SampleResult {
    /// The reading is an event under `threshold`: an active session whose
    /// level lies strictly above it.
    pub open spec fn exceeds(self, threshold: u32) -> bool {
        match self {
            SampleResult::Active(level) => level > threshold,
            SampleResult::Inactive => false,
        }
    }

    /// Tells whether the reading is an event under `threshold`.
    pub fn is_event(&self, threshold: u32) -> (event: bool)
        ensures
            event == self.exceeds(threshold),
    {
        match self {
            SampleResult::Active(level) => *level > threshold,
            SampleResult::Inactive => false,
        }
    }
}

} // verus!
