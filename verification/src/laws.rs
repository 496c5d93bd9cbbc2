//! What holds of the state machine and of the statistics, whatever the
//! inputs.

use crate::policy::Policy;
use crate::registry::{recorded, recorded_all, reactions_of, Registry, StatEvent};
use crate::sample::SampleResult;
use crate::stats::{lemma_reaction_folds, sum, Stats};
use crate::target::{deadline, elapsed, Outcome, Target, TickInput};
use vstd::prelude::*;

verus! {

/// A tick that reports nothing changes nothing, and no tick ever changes
/// the id, the window, the name or the pause flag of a target.
pub proof fn lemma_idle_changes_nothing(
    target: Target,
    now: u64,
    sample: SampleResult,
    delay: u64,
    policy: Policy,
)
    ensures
        target.step(now, sample, delay, policy).1 is Idle ==> target.step(
            now,
            sample,
            delay,
            policy,
        ).0 == target,
        target.step(now, sample, delay, policy).0.id == target.id,
        target.step(now, sample, delay, policy).0.window == target.window,
        target.step(now, sample, delay, policy).0.display_name == target.display_name,
        target.step(now, sample, delay, policy).0.paused == target.paused,
{
}

/// A tick does at most one thing: a cast moves the cast time to the time of
/// the tick and nothing else but the owed-cast flag, a react moves the react
/// time and clears the armed reaction, and an event only arms a reaction.
pub proof fn lemma_one_action_per_tick(
    target: Target,
    now: u64,
    sample: SampleResult,
    delay: u64,
    policy: Policy,
)
    ensures
        ({
            let (after, outcome) = target.step(now, sample, delay, policy);
            match outcome {
                Outcome::Idle => after == target,
                Outcome::Cast | Outcome::Reset => after == target.after_cast(now)
                    && after.last_reel_at == target.last_reel_at && after.reaction_ready_at
                    == target.reaction_ready_at,
                Outcome::React { duration } => after == target.after_react(now)
                    && after.last_cast_at == target.last_cast_at && duration == elapsed(
                    now,
                    target.last_cast_at,
                ),
                Outcome::Detected { ready_at } => after == target.armed(ready_at)
                    && after.last_cast_at == target.last_cast_at && after.last_reel_at
                    == target.last_reel_at && ready_at == deadline(now, delay),
            }
        }),
{
}

/// A reaction is armed for no earlier than the tick that arms it, and only
/// by a reading above the threshold on a target that is listening.
pub proof fn lemma_reaction_armed_ahead(
    target: Target,
    now: u64,
    sample: SampleResult,
    delay: u64,
    policy: Policy,
)
    ensures
        target.step(now, sample, delay, policy).1 matches Outcome::Detected { ready_at } ==> {
            &&& ready_at >= now
            &&& target.step(now, sample, delay, policy).0.reaction_ready_at == Some(ready_at)
            &&& sample.exceeds(policy.event_threshold)
            &&& target.phase_at(now, policy) is Sampling
        },
{
}

/// On a clock that does not run backwards, neither timestamp of a target
/// ever decreases.
pub proof fn lemma_timestamps_never_decrease(
    target: Target,
    now: u64,
    sample: SampleResult,
    delay: u64,
    policy: Policy,
)
    requires
        target.last_cast_at <= now,
        target.last_reel_at <= now,
    ensures
        target.last_cast_at <= target.step(now, sample, delay, policy).0.last_cast_at <= now,
        target.last_reel_at <= target.step(now, sample, delay, policy).0.last_reel_at <= now,
{
}

/// A paused target does nothing, whatever the time and the reading.
pub proof fn lemma_paused_tick_is_idle(
    target: Target,
    now: u64,
    sample: SampleResult,
    delay: u64,
    policy: Policy,
)
    requires
        target.paused,
    ensures
        target.step(now, sample, delay, policy) == (target, Outcome::Idle),
{
}

/// A paused target does nothing for any number of ticks: it comes out of
/// them as it went in, and each of them reports nothing.
pub proof fn lemma_paused_stays_frozen(target: Target, inputs: Seq<TickInput>, policy: Policy)
    requires
        target.paused,
    ensures
        target.run(inputs, policy) == target,
        forall|i: int|
            0 <= i < inputs.len() ==> #[trigger] target.outcome_at(inputs, i, policy)
                == Outcome::Idle,
    decreases inputs.len(),
{
    if inputs.len() > 0 {
        lemma_paused_stays_frozen(target, inputs.drop_last(), policy);
    }
    assert forall|i: int| 0 <= i < inputs.len() implies #[trigger] target.outcome_at(
        inputs,
        i,
        policy,
    ) == Outcome::Idle by {
        lemma_paused_stays_frozen(target, inputs.take(i), policy);
    }
}

/// Ticks that all report nothing leave the target as it was.
pub proof fn lemma_idle_run_changes_nothing(target: Target, inputs: Seq<TickInput>, policy: Policy)
    requires
        forall|i: int|
            0 <= i < inputs.len() ==> #[trigger] target.outcome_at(inputs, i, policy) is Idle,
    ensures
        target.run(inputs, policy) == target,
    decreases inputs.len(),
{
    if inputs.len() > 0 {
        let front = inputs.drop_last();
        let last = inputs.len() - 1;
        assert forall|i: int| 0 <= i < front.len() implies #[trigger] target.outcome_at(
            front,
            i,
            policy,
        ) is Idle by {
            assert(front.take(i) == inputs.take(i));
            assert(target.outcome_at(inputs, i, policy) is Idle);
        }
        lemma_idle_run_changes_nothing(target, front, policy);
        assert(inputs.take(last) == front);
        assert(target.outcome_at(inputs, last, policy) is Idle);
    }
}

/// Pausing drops an armed reaction, and a target whose pause has ended owes
/// a cast: its next tick reports nothing while the cooldown after its last
/// react still runs, and casts otherwise. It never reacts.
pub proof fn lemma_resumed_tick_casts(
    target: Target,
    now: u64,
    sample: SampleResult,
    delay: u64,
    policy: Policy,
)
    requires
        target.paused,
    ensures
        target.paused_form().reaction_ready_at is None,
        target.resumed_form().reaction_ready_at is None,
        !target.resumed_form().paused,
        target.resumed_form().step(now, sample, delay, policy) == if elapsed(
            now,
            target.last_reel_at,
        ) < policy.react_cooldown_ms {
            (target.resumed_form(), Outcome::Idle)
        } else {
            (target.resumed_form().after_cast(now), Outcome::Cast)
        },
{
}

/// After a pause has ended, the first tick that does anything at all is a
/// cast: if the ticks before `inputs[k]` all report nothing, then
/// `inputs[k]` casts or reports nothing, and it casts once the cooldown
/// after the last react is over.
pub proof fn lemma_resume_forces_cast(
    target: Target,
    inputs: Seq<TickInput>,
    k: int,
    policy: Policy,
)
    requires
        target.paused,
        0 <= k < inputs.len(),
        forall|i: int|
            0 <= i < k ==> #[trigger] target.resumed_form().outcome_at(inputs, i, policy) is Idle,
    ensures
        target.resumed_form().outcome_at(inputs, k, policy) == if elapsed(
            inputs[k].now,
            target.last_reel_at,
        ) < policy.react_cooldown_ms {
            Outcome::Idle
        } else {
            Outcome::Cast
        },
{
    let resumed = target.resumed_form();
    let front = inputs.take(k);
    assert forall|i: int| 0 <= i < front.len() implies #[trigger] resumed.outcome_at(
        front,
        i,
        policy,
    ) is Idle by {
        assert(front.take(i) == inputs.take(i));
        assert(resumed.outcome_at(inputs, i, policy) is Idle);
    }
    lemma_idle_run_changes_nothing(resumed, front, policy);
    lemma_resumed_tick_casts(target, inputs[k].now, inputs[k].sample, inputs[k].delay, policy);
}

/// The state a cast leaves behind on a clock that does not run backwards,
/// and any like it: nothing armed, no cast owed, and no react after the
/// last cast.
pub open spec fn freshly_cast(target: Target) -> bool {
    &&& target.reaction_ready_at is None
    &&& !target.recast_pending
    &&& target.last_reel_at <= target.last_cast_at
}

/// A cast at or after the last react leaves the target freshly cast, with
/// the time of the tick as its cast time.
pub proof fn lemma_cast_leaves_freshly_cast(
    target: Target,
    now: u64,
    sample: SampleResult,
    delay: u64,
    policy: Policy,
)
    requires
        target.last_reel_at <= now,
        target.step(now, sample, delay, policy).1 is Cast || target.step(
            now,
            sample,
            delay,
            policy,
        ).1 is Reset,
    ensures
        freshly_cast(target.step(now, sample, delay, policy).0),
        target.step(now, sample, delay, policy).0.last_cast_at == now,
{
}

/// Within the suppression window after its cast, a freshly cast target
/// does nothing, even under a reading at full scale.
pub proof fn lemma_suppressed_after_cast(
    target: Target,
    now: u64,
    sample: SampleResult,
    delay: u64,
    policy: Policy,
)
    requires
        policy.wf(),
        freshly_cast(target),
        target.last_cast_at <= now < target.last_cast_at + policy.suppression_ms,
    ensures
        target.step(now, sample, delay, policy) == (target, Outcome::Idle),
{
}

/// Any number of ticks within the suppression window after its cast leave
/// a freshly cast target as it was, and none of them casts or reacts.
pub proof fn lemma_suppression_window(target: Target, inputs: Seq<TickInput>, policy: Policy)
    requires
        policy.wf(),
        freshly_cast(target),
        forall|i: int|
            0 <= i < inputs.len() ==> target.last_cast_at <= (#[trigger] inputs[i]).now
                < target.last_cast_at + policy.suppression_ms,
    ensures
        target.run(inputs, policy) == target,
        forall|i: int|
            0 <= i < inputs.len() ==> #[trigger] target.outcome_at(inputs, i, policy)
                == Outcome::Idle,
    decreases inputs.len(),
{
    if inputs.len() > 0 {
        let front = inputs.drop_last();
        let last = inputs.last();
        assert forall|i: int| 0 <= i < front.len() implies target.last_cast_at <= (
        #[trigger] front[i]).now < target.last_cast_at + policy.suppression_ms by {
            assert(front[i] == inputs[i]);
        }
        lemma_suppression_window(target, front, policy);
        assert(last == inputs[inputs.len() - 1]);
        lemma_suppressed_after_cast(target, last.now, last.sample, last.delay, policy);
    }
    assert forall|i: int| 0 <= i < inputs.len() implies #[trigger] target.outcome_at(
        inputs,
        i,
        policy,
    ) == Outcome::Idle by {
        let front = inputs.take(i);
        assert forall|j: int| 0 <= j < front.len() implies target.last_cast_at <= (
        #[trigger] front[j]).now < target.last_cast_at + policy.suppression_ms by {
            assert(front[j] == inputs[j]);
        }
        lemma_suppression_window(target, front, policy);
        lemma_suppressed_after_cast(
            target,
            inputs[i].now,
            inputs[i].sample,
            inputs[i].delay,
            policy,
        );
    }
}

/// A running target whose last cast lies further back than the timeout,
/// with nothing armed and no react since that cast, casts on its next tick:
/// a reset, or a plain cast where one was owed anyway.
pub proof fn lemma_timeout_forces_cast(
    target: Target,
    now: u64,
    sample: SampleResult,
    delay: u64,
    policy: Policy,
)
    requires
        policy.wf(),
        !target.paused,
        target.reaction_ready_at is None,
        target.last_reel_at <= target.last_cast_at,
        elapsed(now, target.last_cast_at) > policy.no_bite_timeout_ms,
    ensures
        target.step(now, sample, delay, policy) == (
            target.after_cast(now),
            if target.recast_pending {
                Outcome::Cast
            } else {
                Outcome::Reset
            },
        ),
        target.step(now, sample, delay, policy).0.last_cast_at == now,
{
}

/// A running target with a reaction armed does nothing before the deadline
/// and reacts on the first tick at or after it, whatever else is due.
pub proof fn lemma_armed_reaction_fires(
    target: Target,
    ready_at: u64,
    now: u64,
    sample: SampleResult,
    delay: u64,
    policy: Policy,
)
    requires
        !target.paused,
        target.reaction_ready_at == Some(ready_at),
    ensures
        now < ready_at ==> target.step(now, sample, delay, policy) == (target, Outcome::Idle),
        now >= ready_at ==> target.step(now, sample, delay, policy) == (
            target.after_react(now),
            Outcome::React { duration: elapsed(now, target.last_cast_at) },
        ),
{
}

/// Recording reactions of the durations `durations`, one after the other,
/// keeps the statistics well formed, counts each of them, leaves the cast
/// count alone and adds up their durations; the mean that is kept is then
/// the exact mean of all durations recorded, rounded down.
pub proof fn lemma_running_mean(stats: Stats, durations: Seq<u64>)
    requires
        stats.wf(),
        stats.react_count + durations.len() <= u64::MAX,
    ensures
        stats.with_reactions(durations).wf(),
        stats.with_reactions(durations).react_count == stats.react_count + durations.len(),
        stats.with_reactions(durations).cast_count == stats.cast_count,
        stats.with_reactions(durations).total() == stats.total() + sum(durations),
        stats.with_reactions(durations).react_count > 0 ==> stats.with_reactions(
            durations,
        ).reaction_average_duration == (stats.total() + sum(durations)) / (stats.react_count
            + durations.len()),
    decreases durations.len(),
{
    if durations.len() > 0 {
        let front = durations.drop_last();
        lemma_running_mean(stats, front);
        lemma_reaction_folds(stats.with_reactions(front), durations.last());
    } else {
        if stats.react_count > 0 {
            let n = stats.react_count as int;
            let q = stats.reaction_average_duration as int;
            let r = stats.reaction_remainder as int;
            assert((q * n + r) / n == q) by (nonlinear_arith)
                requires
                    0 <= r < n,
                    0 <= q,
            ;
        }
    }
}

/// After `N` reactions recorded in fresh statistics, the mean that is kept
/// is the sum of the `N` durations over `N`, rounded down, and what it
/// leaves over is kept beside it: no error builds up.
pub proof fn lemma_mean_of_reactions(durations: Seq<u64>)
    requires
        0 < durations.len() <= u64::MAX,
    ensures
        Stats::fresh().with_reactions(durations).react_count == durations.len(),
        Stats::fresh().with_reactions(durations).reaction_average_duration == sum(durations)
            / (durations.len() as int),
        Stats::fresh().with_reactions(durations).reaction_remainder == sum(durations) % (
        durations.len() as int),
{
    lemma_running_mean(Stats::fresh(), durations);
    let after = Stats::fresh().with_reactions(durations);
    let n = after.react_count as int;
    let q = after.reaction_average_duration as int;
    let r = after.reaction_remainder as int;
    assert((q * n + r) % n == r) by (nonlinear_arith)
        requires
            0 <= r < n,
            0 <= q,
    ;
}

/// The running mean of a target depends on its own reactions alone: after
/// any updates, in any order and for any targets, its reaction count and
/// its mean are what its own reactions, recorded alone and in their order,
/// would have left. No update brings a target in or takes one out.
pub proof fn lemma_mean_ignores_other_updates(
    stats: Map<u32, Stats>,
    events: Seq<StatEvent>,
    id: u32,
)
    requires
        stats.contains_key(id),
    ensures
        recorded_all(stats, events).dom() == stats.dom(),
        ({
            let after = recorded_all(stats, events)[id];
            let alone = stats[id].with_reactions(reactions_of(events, id));
            &&& after.react_count == alone.react_count
            &&& after.reaction_average_duration == alone.reaction_average_duration
            &&& after.reaction_remainder == alone.reaction_remainder
        }),
    decreases events.len(),
{
    if events.len() > 0 {
        let front = events.drop_last();
        lemma_mean_ignores_other_updates(stats, front, id);
        let before = recorded_all(stats, front);
        let own = reactions_of(front, id);
        assert(recorded_all(stats, events).dom() =~= before.dom());
        match events.last() {
            StatEvent::Reaction { id: other, duration } if other == id => {
                assert(own.push(duration).drop_last() == own);
                assert(own.push(duration).last() == duration);
            },
            _ => {},
        }
    }
}

/// An update for a target that is not there changes nothing.
pub proof fn lemma_update_for_absent_target(stats: Map<u32, Stats>, event: StatEvent)
    requires
        match event {
            StatEvent::Cast { id } => !stats.contains_key(id),
            StatEvent::Reaction { id, .. } => !stats.contains_key(id),
        },
    ensures
        recorded(stats, event) == stats,
{
}

/// A tick of one target leaves every other target and its statistics as
/// they were, and no target comes or goes.
pub proof fn lemma_tick_touches_one_target(
    registry: &Registry,
    id: u32,
    other: u32,
    now: u64,
    sample: SampleResult,
    delay: u64,
)
    requires
        registry.wf(),
        other != id,
    ensures
        registry.targets_after(id, now, sample, delay).dom() == registry.targets().dom(),
        registry.stats_after_tick(id, now, sample, delay).dom() == registry.stats().dom(),
        registry.targets().contains_key(other) ==> {
            &&& registry.targets_after(id, now, sample, delay)[other] == registry.targets()[other]
            &&& registry.stats_after_tick(id, now, sample, delay)[other]
                == registry.stats()[other]
        },
{
    registry.lemma_wf();
    assert(registry.targets_after(id, now, sample, delay).dom() =~= registry.targets().dom());
    assert(registry.stats_after_tick(id, now, sample, delay).dom() =~= registry.stats().dom());
}

/// Whatever casts and reactions of other targets come in between, the mean
/// kept for a target that started out fresh is the sum of its own reaction
/// times over their number, rounded down.
pub proof fn lemma_mean_under_interleaving(
    stats: Map<u32, Stats>,
    events: Seq<StatEvent>,
    id: u32,
)
    requires
        stats.contains_key(id),
        stats[id].react_count == 0,
        stats[id].wf(),
        0 < reactions_of(events, id).len() <= u64::MAX,
    ensures
        recorded_all(stats, events)[id].react_count == reactions_of(events, id).len(),
        recorded_all(stats, events)[id].reaction_average_duration == sum(
            reactions_of(events, id),
        ) / (reactions_of(events, id).len() as int),
{
    lemma_mean_ignores_other_updates(stats, events, id);
    lemma_running_mean(stats[id], reactions_of(events, id));
}

/// A cast that has timed out is cast again on the next tick of its target,
/// and the cast is counted.
pub proof fn lemma_timeout_counts_a_cast(
    registry: &Registry,
    id: u32,
    now: u64,
    sample: SampleResult,
    delay: u64,
)
    requires
        registry.wf(),
        registry.targets().contains_key(id),
        !registry.targets()[id].paused,
        registry.targets()[id].reaction_ready_at is None,
        registry.targets()[id].last_reel_at <= registry.targets()[id].last_cast_at,
        elapsed(now, registry.targets()[id].last_cast_at) > registry.policy().no_bite_timeout_ms,
    ensures
        registry.outcome_of(id, now, sample, delay) == Some(Outcome::Reset) || registry.outcome_of(
            id,
            now,
            sample,
            delay,
        ) == Some(Outcome::Cast),
        registry.targets_after(id, now, sample, delay)[id].last_cast_at == now,
        registry.stats()[id].cast_count < u64::MAX ==> registry.stats_after_tick(
            id,
            now,
            sample,
            delay,
        )[id].cast_count == registry.stats()[id].cast_count + 1,
{
    registry.lemma_wf();
    lemma_timeout_forces_cast(registry.targets()[id], now, sample, delay, registry.policy());
}

/// No update ever lowers a counter.
pub proof fn lemma_counters_never_decrease(stats: Map<u32, Stats>, event: StatEvent, id: u32)
    requires
        stats.contains_key(id),
    ensures
        recorded(stats, event).contains_key(id),
        recorded(stats, event)[id].cast_count >= stats[id].cast_count,
        recorded(stats, event)[id].react_count >= stats[id].react_count,
{
}

} // verus!
