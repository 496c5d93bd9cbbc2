//! The one key press that both a cast and a react come down to.

use crate::policy::Policy;
use crate::random::draw_between;
use vstd::prelude::*;

verus! {

/// How to press the action key once: wait, key down, hold, key up.
#[derive(Clone, Copy, Debug, PartialEq, Eq, Structural)]
pub struct Injection {
    /// Pause before the key goes down.
    pub pre_delay_ms: u64,
    /// First parameter of both key messages: the key code.
    pub wparam: usize,
    /// Second parameter of both key messages: the key code, sixteen bits up.
    pub lparam: i64,
    /// Time between key down and key up.
    pub hold_ms: u64,
}

/// The key press under `policy` after a pause of `pre_delay_ms`.
pub open spec fn injection_of(policy: Policy, pre_delay_ms: u64) -> Injection {
    Injection {
        pre_delay_ms,
        wparam: policy.action_key as usize,
        lparam: (policy.action_key as int * 0x1_0000) as i64,
        hold_ms: policy.key_hold_ms,
    }
}

/// Lays out the key press under `policy` after a pause of `pre_delay_ms`.
pub fn plan_injection_with(policy: &Policy, pre_delay_ms: u64) -> (plan: Injection)
    ensures
        plan == injection_of(*policy, pre_delay_ms),
{
    let key: u16 = policy.action_key;
    Injection {
        pre_delay_ms,
        wparam: key as usize,
        lparam: key as i64 * 0x1_0000,
        hold_ms: policy.key_hold_ms,
    }
}

/// Lays out the key press under `policy`, after a pause drawn at random
/// from the range the policy gives.
pub fn plan_injection(policy: &Policy) -> (plan: Injection)
    requires
        policy.wf(),
    ensures
        policy.inject_delay_min_ms <= plan.pre_delay_ms < policy.inject_delay_max_ms,
        plan == injection_of(*policy, plan.pre_delay_ms),
{
    let pre_delay_ms: u64 = draw_between(policy.inject_delay_min_ms, policy.inject_delay_max_ms);
    plan_injection_with(policy, pre_delay_ms)
}

} // verus!
