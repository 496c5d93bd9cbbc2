//! Timing and detection constants of the engine.

use vstd::prelude::*;

verus! {

/// Volume level of a session at full scale, in millionths.
pub const FULL_SCALE: u32 = 1_000_000;

/// The fixed policy of the engine. Times are milliseconds, levels are
/// millionths of full scale, ranges are half open.
#[derive(Clone, Copy, Debug)]
pub struct Policy {
    /// Pause between two ticks of the poll loop.
    pub tick_interval_ms: u64,
    /// Settle time after a react during which nothing is done.
    pub react_cooldown_ms: u64,
    /// Time after a cast beyond which the cast is repeated.
    pub no_bite_timeout_ms: u64,
    /// Window after a cast in which samples are ignored.
    pub suppression_ms: u64,
    /// A sample strictly above this level is an event.
    pub event_threshold: u32,
    /// Lower bound of the delay between an event and the react.
    pub reaction_delay_min_ms: u64,
    /// Upper bound, exclusive, of the delay between an event and the react.
    pub reaction_delay_max_ms: u64,
    /// Lower bound of the pause before a key press.
    pub inject_delay_min_ms: u64,
    /// Upper bound, exclusive, of the pause before a key press.
    pub inject_delay_max_ms: u64,
    /// Time the key is held down.
    pub key_hold_ms: u64,
    /// Virtual key code of the action key.
    pub action_key: u16,
    /// How far before its discovery the timestamps of a new target are
    /// set, so that it casts on its first tick.
    pub registration_backdate_ms: u64,
}

impl Policy {
    /// Both delay ranges hold a value, and neither the suppression window
    /// nor the cooldown outlasts the timeout: with a shorter timeout a cast
    /// would be repeated before a single sample had been looked at, or held
    /// back after it had timed out.
    pub open spec fn wf(&self) -> bool {
        &&& self.reaction_delay_min_ms < self.reaction_delay_max_ms
        &&& self.inject_delay_min_ms < self.inject_delay_max_ms
        &&& self.suppression_ms <= self.no_bite_timeout_ms
        &&& self.react_cooldown_ms <= self.no_bite_timeout_ms
    }

    /// The policy the engine runs with unless told otherwise.
    pub open spec fn standard() -> Policy {
        Policy {
            tick_interval_ms: 50,
            react_cooldown_ms: 1_000,
            no_bite_timeout_ms: 30_000,
            suppression_ms: 5_000,
            event_threshold: 35_000,
            reaction_delay_min_ms: 100,
            reaction_delay_max_ms: 500,
            inject_delay_min_ms: 100,
            inject_delay_max_ms: 200,
            key_hold_ms: 10,
            action_key: 0x77,
            registration_backdate_ms: 3_600_000,
        }
    }

    /// Tells whether the policy is well formed.
    pub fn is_valid(&self) -> (valid: bool)
        ensures
            valid == self.wf(),
    {
        self.reaction_delay_min_ms < self.reaction_delay_max_ms && self.inject_delay_min_ms
            < self.inject_delay_max_ms && self.suppression_ms <= self.no_bite_timeout_ms
            && self.react_cooldown_ms <= self.no_bite_timeout_ms
    }
}

impl Default for Policy {
    fn default() -> (policy: Policy)
        ensures
            policy == Policy::standard(),
            policy.wf(),
    {
        Policy {
            tick_interval_ms: 50,
            react_cooldown_ms: 1_000,
            no_bite_timeout_ms: 30_000,
            suppression_ms: 5_000,
            event_threshold: 35_000,
            reaction_delay_min_ms: 100,
            reaction_delay_max_ms: 500,
            inject_delay_min_ms: 100,
            inject_delay_max_ms: 200,
            key_hold_ms: 10,
            action_key: 0x77,
            registration_backdate_ms: 3_600_000,
        }
    }
}

} // verus!
