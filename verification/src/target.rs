//! A tracked target and its per-tick state machine.

use crate::policy::Policy;
use crate::sample::SampleResult;
use vstd::prelude::*;

verus! {

/// Opaque reference to the window that receives the injected key.
#[derive(Clone, Copy, Debug, PartialEq, Eq, Structural)]
pub struct WindowHandle(pub isize);

/// One tracked process and window.
#[derive(Debug)]
pub struct Target {
    /// Process identifier, the key of the target.
    pub id: u32,
    /// Where key presses go. Resolved once and never looked at again.
    pub window: WindowHandle,
    /// Label for people.
    pub display_name: String,
    /// Time of the last cast.
    pub last_cast_at: u64,
    /// Time of the last react.
    pub last_reel_at: u64,
    /// Set once an event was seen: react no earlier than this.
    pub reaction_ready_at: Option<u64>,
    /// While set, ticks do nothing.
    pub paused: bool,
    /// Set while the target owes a cast: before its first one, and after a
    /// pause has ended.
    pub recast_pending: bool,
}

/// Where a target stands at a given time. The variants are listed in the
/// order in which a tick tests for them; the first that applies wins.
#[derive(Clone, Copy, Debug, PartialEq, Eq, Structural)]
pub enum Phase {
    /// The target is paused.
    Paused,
    /// A reaction is armed and its deadline has passed.
    Reacting,
    /// A reaction is armed and its deadline lies ahead.
    ReactionPending,
    /// The last react is less than the cooldown away.
    Settling,
    /// No cast has happened since the last react, or a cast is owed.
    Idle,
    /// The last cast is more than the timeout away.
    TimedOut,
    /// The last cast is less than the suppression window away.
    Suppressed,
    /// The target listens for an event.
    Sampling,
}

/// What one tick did to a target.
#[derive(Clone, Copy, Debug, PartialEq, Eq, Structural)]
pub enum Outcome {
    /// Nothing happened.
    Idle,
    /// The target cast.
    Cast,
    /// The target cast again because no event came in time.
    Reset,
    /// The target reacted, `duration` after its last cast.
    React { duration: u64 },
    /// An event was seen and a reaction armed for `ready_at`.
    Detected { ready_at: u64 },
}

/// Time from `since` to `now`, zero where `since` lies ahead.
pub open spec fn elapsed(now: u64, since: u64) -> u64 {
    if now >= since {
        (now - since) as u64
    } else {
        0
    }
}

/// `now + delay`, held at the largest time that can be told.
pub open spec fn deadline(now: u64, delay: u64) -> u64 {
    if now + delay <= u64::MAX {
        (now + delay) as u64
    } else {
        u64::MAX
    }
}

impl Outcome {
    /// The outcome asks for a key press.
    pub open spec fn injects(self) -> bool {
        self is Cast || self is Reset || self is React
    }

    /// Tells whether a key has to be pressed for this outcome.
    pub fn needs_injection(&self) -> (needed: bool)
        ensures
            needed == self.injects(),
    {
        match self {
            Outcome::Cast | Outcome::Reset | Outcome::React { .. } => true,
            Outcome::Idle | Outcome::Detected { .. } => false,
        }
    }
}

impl Target {
    /// A target that has not cast yet. Both timestamps start at `since`.
    pub fn new(id: u32, window: WindowHandle, display_name: String, since: u64) -> (target: Target)
        ensures
            target == (Target {
                id,
                window,
                display_name,
                last_cast_at: since,
                last_reel_at: since,
                reaction_ready_at: None,
                paused: false,
                recast_pending: true,
            }),
    {
        Target {
            id,
            window,
            display_name,
            last_cast_at: since,
            last_reel_at: since,
            reaction_ready_at: None,
            paused: false,
            recast_pending: true,
        }
    }

    /// A copy of the target.
    pub fn snapshot(&self) -> (copy: Target)
        ensures
            copy == *self,
    {
        Target {
            id: self.id,
            window: self.window,
            display_name: self.display_name.clone(),
            last_cast_at: self.last_cast_at,
            last_reel_at: self.last_reel_at,
            reaction_ready_at: self.reaction_ready_at,
            paused: self.paused,
            recast_pending: self.recast_pending,
        }
    }

    /// The phase of the target at `now`: the first of the eight cases, in
    /// their fixed order, that applies.
    pub open spec fn phase_at(self, now: u64, policy: Policy) -> Phase {
        if self.paused {
            Phase::Paused
        } else if self.reaction_ready_at is Some {
            if now >= self.reaction_ready_at->0 {
                Phase::Reacting
            } else {
                Phase::ReactionPending
            }
        } else if elapsed(now, self.last_reel_at) < policy.react_cooldown_ms {
            Phase::Settling
        } else if self.last_cast_at < self.last_reel_at || self.recast_pending {
            Phase::Idle
        } else if elapsed(now, self.last_cast_at) > policy.no_bite_timeout_ms {
            Phase::TimedOut
        } else if elapsed(now, self.last_cast_at) < policy.suppression_ms {
            Phase::Suppressed
        } else {
            Phase::Sampling
        }
    }

    /// The target after a cast at `now`.
    pub open spec fn after_cast(self, now: u64) -> Target {
        Target { last_cast_at: now, recast_pending: false, ..self }
    }

    /// The target after a react at `now`.
    pub open spec fn after_react(self, now: u64) -> Target {
        Target { last_reel_at: now, reaction_ready_at: None, ..self }
    }

    /// The target with a reaction armed for `ready_at`.
    pub open spec fn armed(self, ready_at: u64) -> Target {
        Target { reaction_ready_at: Some(ready_at), ..self }
    }

    /// One tick: the target after it, and what it did. `delay` is used only
    /// where the tick arms a reaction.
    pub open spec fn step(self, now: u64, sample: SampleResult, delay: u64, policy: Policy) -> (
        Target,
        Outcome,
    ) {
        match self.phase_at(now, policy) {
            Phase::Paused | Phase::ReactionPending | Phase::Settling | Phase::Suppressed => (
                self,
                Outcome::Idle,
            ),
            Phase::Reacting => (
                self.after_react(now),
                Outcome::React { duration: elapsed(now, self.last_cast_at) },
            ),
            Phase::Idle => (self.after_cast(now), Outcome::Cast),
            Phase::TimedOut => (self.after_cast(now), Outcome::Reset),
            Phase::Sampling => if sample.exceeds(policy.event_threshold) {
                (
                    self.armed(deadline(now, delay)),
                    Outcome::Detected { ready_at: deadline(now, delay) },
                )
            } else {
                (self, Outcome::Idle)
            },
        }
    }

    /// Computes the phase of the target at `now`.
    pub fn phase(&self, now: u64, policy: &Policy) -> (phase: Phase)
        ensures
            phase == self.phase_at(now, *policy),
    {
        if self.paused {
            return Phase::Paused;
        }
        if let Some(ready) = self.reaction_ready_at {
            if now >= ready {
                return Phase::Reacting;
            }
            return Phase::ReactionPending;
        }
        if now.saturating_sub(self.last_reel_at) < policy.react_cooldown_ms {
            return Phase::Settling;
        }
        if self.last_cast_at < self.last_reel_at || self.recast_pending {
            return Phase::Idle;
        }
        let since_cast: u64 = now.saturating_sub(self.last_cast_at);
        if since_cast > policy.no_bite_timeout_ms {
            Phase::TimedOut
        } else if since_cast < policy.suppression_ms {
            Phase::Suppressed
        } else {
            Phase::Sampling
        }
    }

    /// Runs one tick at `now` on the reading `sample`. Where the tick arms a
    /// reaction, its deadline lies `delay` after `now`.
    pub fn tick(&mut self, now: u64, sample: SampleResult, delay: u64, policy: &Policy) -> (outcome:
        Outcome)
        ensures
            (*final(self), outcome) == old(self).step(now, sample, delay, *policy),
    {
        match self.phase(now, policy) {
            Phase::Paused | Phase::ReactionPending | Phase::Settling | Phase::Suppressed => {
                Outcome::Idle
            },
            Phase::Reacting => {
                let duration: u64 = now.saturating_sub(self.last_cast_at);
                self.last_reel_at = now;
                self.reaction_ready_at = None;
                Outcome::React { duration }
            },
            Phase::Idle => {
                self.last_cast_at = now;
                self.recast_pending = false;
                Outcome::Cast
            },
            Phase::TimedOut => {
                self.last_cast_at = now;
                self.recast_pending = false;
                Outcome::Reset
            },
            Phase::Sampling => {
                if sample.is_event(policy.event_threshold) {
                    let ready_at: u64 = now.saturating_add(delay);
                    self.reaction_ready_at = Some(ready_at);
                    Outcome::Detected { ready_at }
                } else {
                    Outcome::Idle
                }
            },
        }
    }

    /// The target once paused: frozen, and any armed reaction dropped.
    pub open spec fn paused_form(self) -> Target {
        Target { paused: true, reaction_ready_at: None, ..self }
    }

    /// The target once a pause has ended: running again, no reaction armed,
    /// and a cast owed. A target that is not paused stays as it is.
    pub open spec fn resumed_form(self) -> Target {
        if self.paused {
            Target { paused: false, reaction_ready_at: None, recast_pending: true, ..self }
        } else {
            self
        }
    }

    /// Pauses the target and drops an armed reaction.
    pub fn pause(&mut self)
        ensures
            *final(self) == old(self).paused_form(),
    {
        self.paused = true;
        self.reaction_ready_at = None;
    }

    /// Ends a pause. The next tick that acts at all then casts.
    pub fn resume(&mut self)
        ensures
            *final(self) == old(self).resumed_form(),
    {
        if self.paused {
            self.paused = false;
            self.reaction_ready_at = None;
            self.recast_pending = true;
        }
    }
}

/// What one tick is given: the time, the reading, and the delay to use
/// should the tick arm a reaction.
#[derive(Clone, Copy, Debug, PartialEq, Eq, Structural)]
pub struct TickInput {
    /// Time of the tick.
    pub now: u64,
    /// Reading of the target's session at that time.
    pub sample: SampleResult,
    /// Delay from an event to its react.
    pub delay: u64,
}

impl Target {
    /// The target after the ticks `inputs`, in order.
    pub open spec fn run(self, inputs: Seq<TickInput>, policy: Policy) -> Target
        decreases inputs.len(),
    {
        if inputs.len() == 0 {
            self
        } else {
            let input = inputs.last();
            self.run(inputs.drop_last(), policy).step(
                input.now,
                input.sample,
                input.delay,
                policy,
            ).0
        }
    }

    /// What the tick `inputs[i]` does, after the ticks before it.
    pub open spec fn outcome_at(self, inputs: Seq<TickInput>, i: int, policy: Policy) -> Outcome {
        let input = inputs[i];
        self.run(inputs.take(i), policy).step(input.now, input.sample, input.delay, policy).1
    }

    /// Runs the ticks `inputs`, in order, and reports what each of them did.
    pub fn replay(&mut self, inputs: &Vec<TickInput>, policy: &Policy) -> (outcomes: Vec<Outcome>)
        ensures
            *final(self) == old(self).run(inputs@, *policy),
            outcomes@.len() == inputs@.len(),
            forall|i: int|
                0 <= i < inputs@.len() ==> outcomes@[i] == #[trigger] old(self).outcome_at(
                    inputs@,
                    i,
                    *policy,
                ),
    {
        let mut outcomes: Vec<Outcome> = Vec::new();
        let mut done: usize = 0;
        assert(inputs@.take(0) == Seq::<TickInput>::empty());
        while done < inputs.len()
            invariant
                0 <= done <= inputs@.len(),
                *self == old(self).run(inputs@.take(done as int), *policy),
                outcomes@.len() == done,
                forall|i: int|
                    0 <= i < done ==> outcomes@[i] == #[trigger] old(self).outcome_at(
                        inputs@,
                        i,
                        *policy,
                    ),
            decreases inputs@.len() - done,
        {
            let input = inputs[done];
            let outcome = self.tick(input.now, input.sample, input.delay, policy);
            outcomes.push(outcome);
            proof {
                let next = inputs@.take(done + 1);
                assert(next.drop_last() == inputs@.take(done as int));
                assert(next.last() == inputs@[done as int]);
            }
            done = done + 1;
        }
        assert(inputs@.take(inputs@.len() as int) == inputs@);
        outcomes
    }
}

} // verus!
