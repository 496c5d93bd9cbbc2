//! The shared registry: every tracked target with its statistics.

use crate::policy::Policy;
use crate::random::draw_between;
use crate::sample::SampleResult;
use crate::session::{OutputVolume, Reading};
use crate::stats::Stats;
use crate::target::{elapsed, Outcome, Target};
use std::collections::HashMap;
use vstd::prelude::*;
use vstd::std_specs::hash::spec_keys_iter;
use vstd::std_specs::iter::IteratorSpec;

verus! {

broadcast use vstd::std_specs::hash::group_hash_axioms;

/// Why a target was not taken into the registry.
#[derive(Clone, Copy, Debug, PartialEq, Eq, Structural)]
pub enum InsertError {
    /// The target carries another id than the one it was offered under.
    IdMismatch,
    /// The statistics offered with the target are not well formed.
    MalformedStats,
    /// A target with this id is tracked already.
    AlreadyTracked,
}

/// Targets and their statistics, keyed by process id. The two are created
/// and destroyed together.
pub struct Registry {
    targets: HashMap<u32, Target>,
    stats: HashMap<u32, Stats>,
    policy: Policy,
}

/// One update of the statistics, on its way to the registry.
#[derive(Clone, Copy, Debug, PartialEq, Eq, Structural)]
pub enum StatEvent {
    /// The target `id` cast.
    Cast { id: u32 },
    /// The target `id` reacted, `duration` after its cast.
    Reaction { id: u32, duration: u64 },
}

/// The statistics with one more cast counted for `id`, and unchanged where
/// nothing is kept for `id`.
pub open spec fn cast_recorded(stats: Map<u32, Stats>, id: u32) -> Map<u32, Stats> {
    if stats.contains_key(id) {
        stats.insert(id, stats[id].with_cast())
    } else {
        stats
    }
}

/// The statistics with one more reaction counted for `id`, and unchanged
/// where nothing is kept for `id`.
pub open spec fn reaction_recorded(stats: Map<u32, Stats>, id: u32, duration: u64) -> Map<
    u32,
    Stats,
> {
    if stats.contains_key(id) {
        stats.insert(id, stats[id].with_reaction(duration))
    } else {
        stats
    }
}

/// The statistics after the update `event`.
pub open spec fn recorded(stats: Map<u32, Stats>, event: StatEvent) -> Map<u32, Stats> {
    match event {
        StatEvent::Cast { id } => cast_recorded(stats, id),
        StatEvent::Reaction { id, duration } => reaction_recorded(stats, id, duration),
    }
}

/// The statistics after the updates `events`, in order.
pub open spec fn recorded_all(stats: Map<u32, Stats>, events: Seq<StatEvent>) -> Map<u32, Stats>
    decreases events.len(),
{
    if events.len() == 0 {
        stats
    } else {
        recorded(recorded_all(stats, events.drop_last()), events.last())
    }
}

/// The durations of the reactions of `id` among `events`, in order.
pub open spec fn reactions_of(events: Seq<StatEvent>, id: u32) -> Seq<u64>
    decreases events.len(),
{
    if events.len() == 0 {
        Seq::<u64>::empty()
    } else {
        let front = reactions_of(events.drop_last(), id);
        match events.last() {
            StatEvent::Reaction { id: other, duration } if other == id => front.push(duration),
            _ => front,
        }
    }
}

/// The reading of `id` among `readings`: the first that names it, and
/// `Inactive` where none does.
pub open spec fn reading_of(readings: Seq<Reading>, id: u32) -> SampleResult
    decreases readings.len(),
{
    if readings.len() == 0 {
        SampleResult::Inactive
    } else if readings[0].id == id {
        readings[0].sample
    } else {
        reading_of(readings.drop_first(), id)
    }
}

/// A target and its statistics went from `before` to `after` by one tick at
/// `now` on the reading `sample` that reported `outcome`, for some reaction
/// delay that the policy allows.
pub open spec fn ticked(
    before: (Target, Stats),
    after: (Target, Stats),
    outcome: Outcome,
    now: u64,
    sample: SampleResult,
    policy: Policy,
) -> bool {
    let (target, stats) = before;
    exists|delay: u64|
        {
            &&& policy.reaction_delay_min_ms <= delay < policy.reaction_delay_max_ms
            &&& #[trigger] target.step(now, sample, delay, policy) == (after.0, outcome)
            &&& after.1 == stats_after(stats, outcome)
        }
}

/// The target that the process behind `output` becomes: one that has not
/// cast yet, with both timestamps at `since`.
pub open spec fn registered(output: OutputVolume, since: u64) -> Target {
    Target {
        id: output.pid,
        window: output.hwnd,
        display_name: output.name,
        last_cast_at: since,
        last_reel_at: since,
        reaction_ready_at: None,
        paused: false,
        recast_pending: true,
    }
}

/// The form a target takes when all targets are paused, or all resumed.
pub open spec fn pause_form(target: Target, paused: bool) -> Target {
    if paused {
        target.paused_form()
    } else {
        target.resumed_form()
    }
}

/// The statistics of a target after a tick with the given outcome.
pub open spec fn stats_after(stats: Stats, outcome: Outcome) -> Stats {
    match outcome {
        Outcome::Cast | Outcome::Reset => stats.with_cast(),
        Outcome::React { duration } => stats.with_reaction(duration),
        Outcome::Idle | Outcome::Detected { .. } => stats,
    }
}

impl Registry {
    /// The tracked targets.
    pub closed spec fn targets(&self) -> Map<u32, Target> {
        self.targets@
    }

    /// The statistics of the tracked targets.
    pub closed spec fn stats(&self) -> Map<u32, Stats> {
        self.stats@
    }

    /// The policy the registry ticks with.
    pub closed spec fn policy(&self) -> Policy {
        self.policy
    }

    /// A target is tracked exactly where statistics are kept for it, each
    /// target sits under its own id, and all statistics and the policy are
    /// well formed.
    pub closed spec fn wf(&self) -> bool {
        &&& self.targets@.dom() == self.stats@.dom()
        &&& self.targets@.dom().finite()
        &&& forall|id: u32| #[trigger] self.targets@.contains_key(id) ==> self.targets@[id].id == id
        &&& forall|id: u32| #[trigger] self.stats@.contains_key(id) ==> self.stats@[id].wf()
        &&& self.policy.wf()
    }

    /// What well-formedness means in terms of the two maps.
    pub proof fn lemma_wf(&self)
        requires
            self.wf(),
        ensures
            self.targets().dom() == self.stats().dom(),
            self.targets().dom().finite(),
            forall|id: u32| #[trigger]
                self.targets().contains_key(id) ==> self.targets()[id].id == id,
            forall|id: u32| #[trigger] self.stats().contains_key(id) ==> self.stats()[id].wf(),
            self.policy().wf(),
    {
    }

    /// An empty registry that ticks with `policy`.
    pub fn new(policy: Policy) -> (registry: Registry)
        requires
            policy.wf(),
        ensures
            registry.wf(),
            registry.targets() == Map::<u32, Target>::empty(),
            registry.stats() == Map::<u32, Stats>::empty(),
            registry.policy() == policy,
    {
        Registry { targets: HashMap::new(), stats: HashMap::new(), policy }
    }

    /// The policy the registry ticks with.
    pub fn get_policy(&self) -> (policy: Policy)
        ensures
            policy == self.policy(),
    {
        self.policy
    }

    /// Number of tracked targets.
    pub fn len(&self) -> (count: usize)
        requires
            self.wf(),
        ensures
            count == self.targets().dom().len(),
    {
        self.targets.len()
    }

    /// Tells whether `id` is tracked.
    pub fn contains(&self, id: u32) -> (present: bool)
        requires
            self.wf(),
        ensures
            present == self.targets().contains_key(id),
    {
        self.targets.contains_key(&id)
    }

    /// Starts tracking `target` under `id` with the statistics `stats`.
    /// Nothing changes where the offer is refused.
    pub fn insert(&mut self, id: u32, target: Target, stats: Stats) -> (done: Result<
        (),
        InsertError,
    >)
        requires
            old(self).wf(),
        ensures
            final(self).wf(),
            final(self).policy() == old(self).policy(),
            done == if target.id != id {
                Err::<(), InsertError>(InsertError::IdMismatch)
            } else if !stats.wf() {
                Err(InsertError::MalformedStats)
            } else if old(self).targets().contains_key(id) {
                Err(InsertError::AlreadyTracked)
            } else {
                Ok(())
            },
            done is Ok ==> final(self).targets() == old(self).targets().insert(id, target)
                && final(self).stats() == old(self).stats().insert(id, stats),
            done is Err ==> final(self).targets() == old(self).targets() && final(self).stats()
                == old(self).stats(),
    {
        if target.id != id {
            return Err(InsertError::IdMismatch);
        }
        if !stats.is_valid() {
            return Err(InsertError::MalformedStats);
        }
        if self.targets.contains_key(&id) {
            return Err(InsertError::AlreadyTracked);
        }
        self.targets.insert(id, target);
        self.stats.insert(id, stats);
        assert(final(self).targets@.dom() =~= final(self).stats@.dom());
        Ok(())
    }

    /// Stops tracking `id` and hands back what was kept for it.
    pub fn remove(&mut self, id: u32) -> (removed: Option<(Target, Stats)>)
        requires
            old(self).wf(),
        ensures
            final(self).wf(),
            final(self).policy() == old(self).policy(),
            final(self).targets() == old(self).targets().remove(id),
            final(self).stats() == old(self).stats().remove(id),
            removed == if old(self).targets().contains_key(id) {
                Some((old(self).targets()[id], old(self).stats()[id]))
            } else {
                None
            },
    {
        let target = self.targets.remove(&id);
        let stats = self.stats.remove(&id);
        assert(self.targets@.dom() =~= self.stats@.dom());
        match (target, stats) {
            (Some(target), Some(stats)) => Some((target, stats)),
            _ => None,
        }
    }

    /// A copy of what is kept for `id`.
    pub fn get(&self, id: u32) -> (found: Option<(Target, Stats)>)
        requires
            self.wf(),
        ensures
            found == if self.targets().contains_key(id) {
                Some((self.targets()[id], self.stats()[id]))
            } else {
                None
            },
    {
        match (self.targets.get(&id), self.stats.get(&id)) {
            (Some(target), Some(stats)) => Some((target.snapshot(), *stats)),
            _ => None,
        }
    }

    /// Counts one cast for `id`. A target that is gone is passed over.
    pub fn record_cast(&mut self, id: u32)
        requires
            old(self).wf(),
        ensures
            final(self).wf(),
            final(self).policy() == old(self).policy(),
            final(self).targets() == old(self).targets(),
            final(self).stats() == cast_recorded(old(self).stats(), id),
    {
        match self.stats.remove(&id) {
            Some(mut stats) => {
                stats.record_cast();
                self.stats.insert(id, stats);
                assert(self.stats@.dom() =~= old(self).stats@.dom());
                assert(self.stats@ =~= old(self).stats@.insert(id, old(self).stats@[id].with_cast()));
            },
            None => {
                assert(self.stats@ =~= old(self).stats@);
            },
        }
    }

    /// Counts one reaction for `id` that took `duration` and folds it into
    /// the running mean. A target that is gone is passed over.
    pub fn record_reaction(&mut self, id: u32, duration: u64)
        requires
            old(self).wf(),
        ensures
            final(self).wf(),
            final(self).policy() == old(self).policy(),
            final(self).targets() == old(self).targets(),
            final(self).stats() == reaction_recorded(old(self).stats(), id, duration),
    {
        match self.stats.remove(&id) {
            Some(mut stats) => {
                stats.record_reaction(duration);
                self.stats.insert(id, stats);
                assert(self.stats@.dom() =~= old(self).stats@.dom());
                assert(self.stats@ =~= old(self).stats@.insert(
                    id,
                    old(self).stats@[id].with_reaction(duration),
                ));
            },
            None => {
                assert(self.stats@ =~= old(self).stats@);
            },
        }
    }

    /// Pauses `id` and drops its armed reaction. Tells whether the target
    /// was there.
    pub fn pause(&mut self, id: u32) -> (found: bool)
        requires
            old(self).wf(),
        ensures
            final(self).wf(),
            final(self).policy() == old(self).policy(),
            final(self).stats() == old(self).stats(),
            found == old(self).targets().contains_key(id),
            final(self).targets() == if found {
                old(self).targets().insert(id, old(self).targets()[id].paused_form())
            } else {
                old(self).targets()
            },
    {
        match self.targets.remove(&id) {
            Some(mut target) => {
                target.pause();
                self.targets.insert(id, target);
                assert(self.targets@.dom() =~= old(self).targets@.dom());
                assert(self.targets@ =~= old(self).targets@.insert(
                    id,
                    old(self).targets@[id].paused_form(),
                ));
                true
            },
            None => {
                assert(self.targets@ =~= old(self).targets@);
                false
            },
        }
    }

    /// Ends the pause of `id`, which then owes a cast. Tells whether the
    /// target was there.
    pub fn resume(&mut self, id: u32) -> (found: bool)
        requires
            old(self).wf(),
        ensures
            final(self).wf(),
            final(self).policy() == old(self).policy(),
            final(self).stats() == old(self).stats(),
            found == old(self).targets().contains_key(id),
            final(self).targets() == if found {
                old(self).targets().insert(id, old(self).targets()[id].resumed_form())
            } else {
                old(self).targets()
            },
    {
        match self.targets.remove(&id) {
            Some(mut target) => {
                target.resume();
                self.targets.insert(id, target);
                assert(self.targets@.dom() =~= old(self).targets@.dom());
                assert(self.targets@ =~= old(self).targets@.insert(
                    id,
                    old(self).targets@[id].resumed_form(),
                ));
                true
            },
            None => {
                assert(self.targets@ =~= old(self).targets@);
                false
            },
        }
    }

    /// Runs one tick of `id` at `now` on the reading `sample`, and counts a
    /// cast or a reaction in its statistics. Where the tick arms a reaction,
    /// its deadline lies `delay` after `now`. A target that is gone is passed
    /// over. No other target is touched.
    pub fn tick_with(&mut self, id: u32, now: u64, sample: SampleResult, delay: u64) -> (outcome:
        Option<Outcome>)
        requires
            old(self).wf(),
        ensures
            final(self).wf(),
            final(self).policy() == old(self).policy(),
            outcome == old(self).outcome_of(id, now, sample, delay),
            final(self).targets() == old(self).targets_after(id, now, sample, delay),
            final(self).stats() == old(self).stats_after_tick(id, now, sample, delay),
    {
        match self.targets.remove(&id) {
            Some(mut target) => {
                let outcome = target.tick(now, sample, delay, &self.policy);
                self.targets.insert(id, target);
                assert(self.targets@ =~= old(self).targets_after(id, now, sample, delay));
                match outcome {
                    Outcome::Cast | Outcome::Reset => {
                        self.record_cast(id);
                    },
                    Outcome::React { duration } => {
                        self.record_reaction(id, duration);
                    },
                    Outcome::Idle | Outcome::Detected { .. } => {
                        assert(self.targets@.dom() =~= old(self).targets@.dom());
                        assert(self.stats@ =~= old(self).stats@.insert(id, old(self).stats@[id]));
                    },
                }
                Some(outcome)
            },
            None => {
                assert(self.targets@ =~= old(self).targets@);
                None
            },
        }
    }

    /// Runs one tick of `id` at `now` on the reading `sample`, as
    /// [`Registry::tick_with`] does, with a reaction delay drawn at random
    /// from the range the policy gives.
    pub fn tick(&mut self, id: u32, now: u64, sample: SampleResult) -> (outcome: Option<Outcome>)
        requires
            old(self).wf(),
        ensures
            final(self).wf(),
            final(self).policy() == old(self).policy(),
            exists|delay: u64|
                {
                    &&& old(self).policy().reaction_delay_min_ms <= delay
                        < old(self).policy().reaction_delay_max_ms
                    &&& outcome == #[trigger] old(self).outcome_of(id, now, sample, delay)
                    &&& final(self).targets() == old(self).targets_after(id, now, sample, delay)
                    &&& final(self).stats() == old(self).stats_after_tick(id, now, sample, delay)
                },
    {
        let delay: u64 = draw_between(
            self.policy.reaction_delay_min_ms,
            self.policy.reaction_delay_max_ms,
        );
        self.tick_with(id, now, sample, delay)
    }

    /// What a tick of `id` reports: nothing for a target that is not there.
    pub open spec fn outcome_of(&self, id: u32, now: u64, sample: SampleResult, delay: u64) -> Option<
        Outcome,
    > {
        if self.targets().contains_key(id) {
            Some(self.targets()[id].step(now, sample, delay, self.policy()).1)
        } else {
            None
        }
    }

    /// The targets after a tick of `id`.
    pub open spec fn targets_after(&self, id: u32, now: u64, sample: SampleResult, delay: u64) -> Map<
        u32,
        Target,
    > {
        if self.targets().contains_key(id) {
            self.targets().insert(id, self.targets()[id].step(now, sample, delay, self.policy()).0)
        } else {
            self.targets()
        }
    }

    /// The statistics after a tick of `id`.
    pub open spec fn stats_after_tick(
        &self,
        id: u32,
        now: u64,
        sample: SampleResult,
        delay: u64,
    ) -> Map<u32, Stats> {
        if self.targets().contains_key(id) {
            self.stats().insert(
                id,
                stats_after(
                    self.stats()[id],
                    self.targets()[id].step(now, sample, delay, self.policy()).1,
                ),
            )
        } else {
            self.stats()
        }
    }

    /// Applies one update of the statistics. An update for a target that is
    /// gone is dropped.
    pub fn record(&mut self, event: StatEvent)
        requires
            old(self).wf(),
        ensures
            final(self).wf(),
            final(self).policy() == old(self).policy(),
            final(self).targets() == old(self).targets(),
            final(self).stats() == recorded(old(self).stats(), event),
    {
        match event {
            StatEvent::Cast { id } => self.record_cast(id),
            StatEvent::Reaction { id, duration } => self.record_reaction(id, duration),
        }
    }

    /// Applies the updates `events`, in order.
    pub fn record_all(&mut self, events: &Vec<StatEvent>)
        requires
            old(self).wf(),
        ensures
            final(self).wf(),
            final(self).policy() == old(self).policy(),
            final(self).targets() == old(self).targets(),
            final(self).stats() == recorded_all(old(self).stats(), events@),
    {
        let mut done: usize = 0;
        assert(events@.take(0) == Seq::<StatEvent>::empty());
        while done < events.len()
            invariant
                self.wf(),
                self.policy() == old(self).policy(),
                self.targets() == old(self).targets(),
                0 <= done <= events@.len(),
                self.stats() == recorded_all(old(self).stats(), events@.take(done as int)),
            decreases events@.len() - done,
        {
            self.record(events[done]);
            proof {
                let next = events@.take(done + 1);
                assert(next.drop_last() == events@.take(done as int));
                assert(next.last() == events@[done as int]);
            }
            done = done + 1;
        }
        assert(events@.take(events@.len() as int) == events@);
    }

    /// Pauses `id` if it runs and ends its pause if it is paused. Tells
    /// whether the target was there.
    pub fn toggle_pause(&mut self, id: u32) -> (found: bool)
        requires
            old(self).wf(),
        ensures
            final(self).wf(),
            final(self).policy() == old(self).policy(),
            final(self).stats() == old(self).stats(),
            found == old(self).targets().contains_key(id),
            final(self).targets() == if found {
                old(self).targets().insert(
                    id,
                    if old(self).targets()[id].paused {
                        old(self).targets()[id].resumed_form()
                    } else {
                        old(self).targets()[id].paused_form()
                    },
                )
            } else {
                old(self).targets()
            },
    {
        let paused = match self.targets.get(&id) {
            Some(target) => target.paused,
            None => {
                return false;
            },
        };
        if paused {
            self.resume(id)
        } else {
            self.pause(id)
        }
    }

    /// The ids of all tracked targets, each once, in no particular order.
    pub fn ids(&self) -> (ids: Vec<u32>)
        requires
            self.wf(),
        ensures
            ids@.no_duplicates(),
            ids@.to_set() == self.targets().dom(),
            ids@.len() == self.targets().dom().len(),
    {
        let mut ids: Vec<u32> = Vec::new();
        let ghost all = spec_keys_iter(&self.targets).remaining();
        for id in it: self.targets.keys()
            invariant
                it.seq() == all,
                ids@ == all.take(it.index() as int).unref(),
        {
            ids.push(*id);
        }
        assert(ids@ == all.unref());
        ids
    }

    /// A copy of every tracked target with its statistics, each once, in no
    /// particular order.
    pub fn list_targets(&self) -> (list: Vec<(Target, Stats)>)
        requires
            self.wf(),
        ensures
            list@.len() == self.targets().dom().len(),
            forall|i: int|
                0 <= i < list@.len() ==> {
                    &&& self.targets().contains_key((#[trigger] list@[i]).0.id)
                    &&& self.targets()[list@[i].0.id] == list@[i].0
                    &&& self.stats()[list@[i].0.id] == list@[i].1
                },
            forall|i: int, j: int|
                0 <= i < j < list@.len() ==> (#[trigger] list@[i]).0.id != (
                #[trigger] list@[j]).0.id,
            forall|id: u32| #[trigger]
                self.targets().contains_key(id) ==> exists|i: int|
                    0 <= i < list@.len() && (#[trigger] list@[i]).0.id == id,
    {
        let ids = self.ids();
        let mut list: Vec<(Target, Stats)> = Vec::new();
        let mut i: usize = 0;
        while i < ids.len()
            invariant
                self.wf(),
                0 <= i <= ids@.len(),
                ids@.no_duplicates(),
                ids@.to_set() == self.targets().dom(),
                list@.len() == i,
                forall|k: int|
                    0 <= k < i ==> {
                        &&& (#[trigger] list@[k]).0.id == ids@[k]
                        &&& list@[k].0 == self.targets()[ids@[k]]
                        &&& list@[k].1 == self.stats()[ids@[k]]
                    },
            decreases ids@.len() - i,
        {
            let id = ids[i];
            assert(ids@.to_set().contains(ids@[i as int]));
            if let Some(entry) = self.get(id) {
                list.push(entry);
            }
            i = i + 1;
        }
        assert forall|id: u32| #[trigger] self.targets().contains_key(id) implies exists|i: int|
            0 <= i < list@.len() && (#[trigger] list@[i]).0.id == id by {
            assert(ids@.to_set().contains(id));
            let k = choose|k: int| 0 <= k < ids@.len() && ids@[k] == id;
            assert(list@[k].0.id == id);
        }
        list
    }

    /// Pauses every target, or ends the pause of every target.
    pub fn set_all_paused(&mut self, paused: bool)
        requires
            old(self).wf(),
        ensures
            final(self).wf(),
            final(self).policy() == old(self).policy(),
            final(self).stats() == old(self).stats(),
            final(self).targets() == old(self).targets().map_values(
                |target: Target| pause_form(target, paused),
            ),
    {
        let ids = self.ids();
        let ghost before = self.targets();
        let mut i: usize = 0;
        while i < ids.len()
            invariant
                self.wf(),
                self.policy() == old(self).policy(),
                self.stats() == old(self).stats(),
                before == old(self).targets(),
                0 <= i <= ids@.len(),
                ids@.no_duplicates(),
                ids@.to_set() == before.dom(),
                self.targets().dom() == before.dom(),
                forall|k: int|
                    0 <= k < i ==> self.targets()[#[trigger] ids@[k]] == pause_form(
                        before[ids@[k]],
                        paused,
                    ),
                forall|k: int|
                    i <= k < ids@.len() ==> self.targets()[#[trigger] ids@[k]] == before[ids@[k]],
            decreases ids@.len() - i,
        {
            let id = ids[i];
            let ghost here = self.targets();
            assert(ids@.to_set().contains(ids@[i as int]));
            if paused {
                self.pause(id);
            } else {
                self.resume(id);
            }
            assert(self.targets() == here.insert(id, pause_form(here[id], paused)));
            assert(self.targets().dom() =~= before.dom());
            i = i + 1;
        }
        assert(self.targets() =~= before.map_values(|target: Target| pause_form(target, paused)))
            by {
            assert forall|id: u32| before.contains_key(id) implies #[trigger] self.targets()[id]
                == pause_form(before[id], paused) by {
                assert(ids@.to_set().contains(id));
                let k = choose|k: int| 0 <= k < ids@.len() && ids@[k] == id;
                assert(self.targets()[ids@[k]] == pause_form(before[ids@[k]], paused));
            }
        }
    }

    /// Looks up the reading of `id` among `readings`.
    pub fn find_reading(readings: &Vec<Reading>, id: u32) -> (sample: SampleResult)
        ensures
            sample == reading_of(readings@, id),
    {
        let mut i: usize = 0;
        assert(readings@.skip(0) == readings@);
        while i < readings.len()
            invariant
                0 <= i <= readings@.len(),
                reading_of(readings@, id) == reading_of(readings@.skip(i as int), id),
            decreases readings@.len() - i,
        {
            if readings[i].id == id {
                return readings[i].sample;
            }
            assert(readings@.skip(i as int).drop_first() == readings@.skip(i as int + 1));
            i = i + 1;
        }
        SampleResult::Inactive
    }

    /// Runs one tick at `now` of every tracked target, each on its reading
    /// among `readings` and with a reaction delay drawn at random from the
    /// range the policy gives, and counts casts and reactions. Reports what
    /// each target did, each once, in no particular order. No target comes
    /// or goes.
    pub fn poll(&mut self, now: u64, readings: &Vec<Reading>) -> (report: Vec<(u32, Outcome)>)
        requires
            old(self).wf(),
        ensures
            final(self).wf(),
            final(self).policy() == old(self).policy(),
            final(self).targets().dom() == old(self).targets().dom(),
            final(self).stats().dom() == old(self).stats().dom(),
            report@.len() == old(self).targets().dom().len(),
            forall|i: int, j: int|
                0 <= i < j < report@.len() ==> (#[trigger] report@[i]).0 != (
                #[trigger] report@[j]).0,
            forall|id: u32| #[trigger]
                old(self).targets().contains_key(id) ==> exists|i: int|
                    0 <= i < report@.len() && (#[trigger] report@[i]).0 == id,
            forall|i: int|
                0 <= i < report@.len() ==> {
                    let id = (#[trigger] report@[i]).0;
                    &&& old(self).targets().contains_key(id)
                    &&& ticked(
                        (old(self).targets()[id], old(self).stats()[id]),
                        (final(self).targets()[id], final(self).stats()[id]),
                        report@[i].1,
                        now,
                        reading_of(readings@, id),
                        old(self).policy(),
                    )
                },
    {
        let ids = self.ids();
        let ghost before_targets = self.targets();
        let ghost before_stats = self.stats();
        let ghost policy = self.policy();
        let mut report: Vec<(u32, Outcome)> = Vec::new();
        let mut i: usize = 0;
        while i < ids.len()
            invariant
                self.wf(),
                self.policy() == policy,
                0 <= i <= ids@.len(),
                ids@.no_duplicates(),
                ids@.to_set() == before_targets.dom(),
                before_stats.dom() == before_targets.dom(),
                self.targets().dom() == before_targets.dom(),
                self.stats().dom() == before_targets.dom(),
                report@.len() == i,
                forall|k: int|
                    0 <= k < i ==> {
                        &&& (#[trigger] report@[k]).0 == ids@[k]
                        &&& ticked(
                            (before_targets[ids@[k]], before_stats[ids@[k]]),
                            (self.targets()[ids@[k]], self.stats()[ids@[k]]),
                            report@[k].1,
                            now,
                            reading_of(readings@, ids@[k]),
                            policy,
                        )
                    },
                forall|k: int|
                    i <= k < ids@.len() ==> self.targets()[#[trigger] ids@[k]]
                        == before_targets[ids@[k]] && self.stats()[ids@[k]]
                        == before_stats[ids@[k]],
            decreases ids@.len() - i,
        {
            let id = ids[i];
            let ghost here = *self;
            assert(ids@.to_set().contains(ids@[i as int]));
            let sample = Self::find_reading(readings, id);
            let outcome = self.tick(id, now, sample);
            proof {
                let delay = choose|delay: u64|
                    {
                        &&& policy.reaction_delay_min_ms <= delay < policy.reaction_delay_max_ms
                        &&& outcome == #[trigger] here.outcome_of(id, now, sample, delay)
                        &&& self.targets() == here.targets_after(id, now, sample, delay)
                        &&& self.stats() == here.stats_after_tick(id, now, sample, delay)
                    };
                let stepped = here.targets()[id].step(now, sample, delay, policy);
                assert(here.targets()[ids@[i as int]] == before_targets[ids@[i as int]]);
                assert(here.stats()[ids@[i as int]] == before_stats[ids@[i as int]]);
                assert(outcome == Some(stepped.1));
                assert(self.targets()[id] == stepped.0);
                assert(self.stats()[id] == stats_after(here.stats()[id], stepped.1));
                assert(before_targets[id].step(now, sample, delay, policy) == (
                    self.targets()[id],
                    stepped.1,
                ));
                assert(ticked(
                    (before_targets[id], before_stats[id]),
                    (self.targets()[id], self.stats()[id]),
                    stepped.1,
                    now,
                    reading_of(readings@, id),
                    policy,
                ));
                assert(self.targets().dom() =~= before_targets.dom());
                assert(self.stats().dom() =~= before_targets.dom());
                assert forall|k: int| 0 <= k < ids@.len() && k != i implies self.targets()[
                #[trigger] ids@[k]] == here.targets()[ids@[k]] && self.stats()[ids@[k]]
                    == here.stats()[ids@[k]] by {
                    assert(ids@[k] != ids@[i as int]);
                }
            }
            let ghost reported = report@;
            if let Some(outcome) = outcome {
                report.push((id, outcome));
            }
            assert forall|k: int| 0 <= k < i + 1 implies {
                &&& (#[trigger] report@[k]).0 == ids@[k]
                &&& ticked(
                    (before_targets[ids@[k]], before_stats[ids@[k]]),
                    (self.targets()[ids@[k]], self.stats()[ids@[k]]),
                    report@[k].1,
                    now,
                    reading_of(readings@, ids@[k]),
                    policy,
                )
            } by {
                if k < i {
                    assert(report@[k] == reported[k]);
                    assert(self.targets()[ids@[k]] == here.targets()[ids@[k]]);
                    assert(self.stats()[ids@[k]] == here.stats()[ids@[k]]);
                }
            }
            i = i + 1;
        }
        proof {
            assert forall|id: u32| #[trigger] before_targets.contains_key(id) implies exists|
                i: int,
            |
                0 <= i < report@.len() && (#[trigger] report@[i]).0 == id by {
                assert(ids@.to_set().contains(id));
                let k = choose|k: int| 0 <= k < ids@.len() && ids@[k] == id;
                assert(report@[k].0 == id);
            }
            assert forall|i: int| 0 <= i < report@.len() implies old(self).targets().contains_key(
                (#[trigger] report@[i]).0,
            ) by {
                assert(ids@.to_set().contains(ids@[i]));
            }
        }
        report
    }

    /// Starts tracking the process behind `output`, found at `now`, as a
    /// target that has not cast yet, with fresh statistics. Its timestamps
    /// are set back from `now` by what the policy says, or to zero where the
    /// clock has not run that long. Tells whether the target is new; one that
    /// is tracked already stays as it is.
    pub fn register(&mut self, output: OutputVolume, now: u64) -> (added: bool)
        requires
            old(self).wf(),
        ensures
            final(self).wf(),
            final(self).policy() == old(self).policy(),
            added == !old(self).targets().contains_key(output.pid),
            added ==> final(self).targets() == old(self).targets().insert(
                output.pid,
                registered(output, elapsed(now, old(self).policy().registration_backdate_ms)),
            ) && final(self).stats() == old(self).stats().insert(output.pid, Stats::fresh()),
            !added ==> final(self).targets() == old(self).targets() && final(self).stats()
                == old(self).stats(),
    {
        let id = output.pid;
        let since: u64 = now.saturating_sub(self.policy.registration_backdate_ms);
        let target = Target::new(id, output.hwnd, output.name, since);
        self.insert(id, target, Stats::new()).is_ok()
    }
}

} // verus!
