//! Running statistics of one target.

use vstd::prelude::*;

verus! {

/// Counters of one target and the running mean of its reaction times.
///
/// The mean is kept exactly, as a whole number of milliseconds and a
/// remainder over the number of reactions, so that no reaction time has to
/// be remembered and no rounding error builds up.
#[derive(Clone, Copy, Debug, PartialEq, Eq, Structural)]
pub struct Stats {
    /// Number of casts.
    pub cast_count: u64,
    /// Number of reacts.
    pub react_count: u64,
    /// Mean time from a cast to its react, rounded down.
    pub reaction_average_duration: u64,
    /// What the mean leaves over: the sum of all reaction times is
    /// `reaction_average_duration * react_count + reaction_remainder`.
    pub reaction_remainder: u64,
}

/// Sum of a sequence of durations.
pub open spec fn sum(durations: Seq<u64>) -> int
    decreases durations.len(),
{
    if durations.len() == 0 {
        0
    } else {
        sum(durations.drop_last()) + durations.last()
    }
}

impl Stats {
    /// The remainder is a proper one: below the number of reactions, and
    /// with no reaction there is no mean.
    pub open spec fn wf(&self) -> bool {
        if self.react_count == 0 {
            self.reaction_average_duration == 0 && self.reaction_remainder == 0
        } else {
            self.reaction_remainder < self.react_count
        }
    }

    /// Sum of all reaction times recorded so far.
    pub open spec fn total(&self) -> int {
        self.reaction_average_duration * self.react_count + self.reaction_remainder
    }

    /// Statistics of a target that has done nothing yet.
    pub open spec fn fresh() -> Stats {
        Stats { cast_count: 0, react_count: 0, reaction_average_duration: 0, reaction_remainder: 0 }
    }

    /// The statistics after one more cast. A full counter stays full.
    pub open spec fn with_cast(self) -> Stats {
        if self.cast_count == u64::MAX {
            self
        } else {
            Stats { cast_count: (self.cast_count + 1) as u64, ..self }
        }
    }

    /// The statistics after one more reaction that took `duration`: the new
    /// mean is the old sum plus `duration`, over the new count. A full
    /// counter leaves everything as it is.
    pub open spec fn with_reaction(self, duration: u64) -> Stats {
        if self.react_count == u64::MAX {
            self
        } else {
            let count = self.react_count + 1;
            let total = self.total() + duration;
            Stats {
                react_count: count as u64,
                reaction_average_duration: (total / count) as u64,
                reaction_remainder: (total % count) as u64,
                ..self
            }
        }
    }

    /// The statistics after a reaction for each of `durations`, in order.
    pub open spec fn with_reactions(self, durations: Seq<u64>) -> Stats
        decreases durations.len(),
    {
        if durations.len() == 0 {
            self
        } else {
            self.with_reactions(durations.drop_last()).with_reaction(durations.last())
        }
    }

    /// Statistics of a target that has done nothing yet.
    pub fn new() -> (stats: Stats)
        ensures
            stats == Stats::fresh(),
            stats.wf(),
    {
        Stats { cast_count: 0, react_count: 0, reaction_average_duration: 0, reaction_remainder: 0 }
    }

    /// Tells whether the statistics are well formed.
    pub fn is_valid(&self) -> (valid: bool)
        ensures
            valid == self.wf(),
    {
        if self.react_count == 0 {
            self.reaction_average_duration == 0 && self.reaction_remainder == 0
        } else {
            self.reaction_remainder < self.react_count
        }
    }

    /// Counts one cast.
    pub fn record_cast(&mut self)
        ensures
            *final(self) == old(self).with_cast(),
            old(self).wf() ==> final(self).wf(),
    {
        if self.cast_count < u64::MAX {
            self.cast_count = self.cast_count + 1;
        }
    }

    /// Counts one reaction that took `duration` and folds it into the mean.
    pub fn record_reaction(&mut self, duration: u64)
        requires
            old(self).wf(),
        ensures
            *final(self) == old(self).with_reaction(duration),
            final(self).wf(),
            old(self).react_count < u64::MAX ==> {
                &&& final(self).react_count == old(self).react_count + 1
                &&& final(self).total() == old(self).total() + duration
                &&& final(self).reaction_average_duration == final(self).total() / (
                final(self).react_count as int)
            },
    {
        if self.react_count == u64::MAX {
            return ;
        }
        proof {
            lemma_reaction_folds(*self, duration);
        }
        let count: u128 = self.react_count as u128 + 1;
        assert(self.reaction_average_duration as u128 * self.react_count as u128 <= 0xffff_ffff_ffff_ffff
            * 0xffff_ffff_ffff_ffff) by (nonlinear_arith)
            requires
                self.reaction_average_duration <= 0xffff_ffff_ffff_ffff,
                self.react_count <= 0xffff_ffff_ffff_ffff,
        ;
        let total: u128 = self.reaction_average_duration as u128 * self.react_count as u128
            + self.reaction_remainder as u128 + duration as u128;
        let mean: u128 = total / count;
        let rest: u128 = total % count;
        self.react_count = count as u64;
        self.reaction_average_duration = mean as u64;
        self.reaction_remainder = rest as u64;
    }
}

impl Default for Stats {
    fn default() -> (stats: Stats)
        ensures
            stats == Stats::fresh(),
            stats.wf(),
    {
        Stats::new()
    }
}

/// Folding a reaction into well-formed statistics keeps them well formed,
/// adds its duration to the sum, and leaves the mean at the sum over the
/// count, which fits the field.
pub proof fn lemma_reaction_folds(stats: Stats, duration: u64)
    requires
        stats.wf(),
        stats.react_count < u64::MAX,
    ensures
        stats.with_reaction(duration).wf(),
        stats.with_reaction(duration).react_count == stats.react_count + 1,
        stats.with_reaction(duration).cast_count == stats.cast_count,
        stats.with_reaction(duration).total() == stats.total() + duration,
        stats.with_reaction(duration).reaction_average_duration == (stats.total() + duration) / (
        stats.react_count + 1),
        0 <= (stats.total() + duration) / (stats.react_count + 1) <= u64::MAX,
        0 <= (stats.total() + duration) % (stats.react_count + 1) <= stats.react_count,
{
    let n: int = stats.react_count as int;
    let q: int = stats.reaction_average_duration as int;
    let r: int = stats.reaction_remainder as int;
    let d: int = duration as int;
    let t: int = q * n + r + d;
    let m: int = n + 1;
    assert(0 <= q * n) by (nonlinear_arith)
        requires
            0 <= q,
            0 <= n,
    ;
    assert(stats.total() + duration == t);
    assert(t == m * (t / m) + t % m && 0 <= t % m < m) by (nonlinear_arith)
        requires
            m > 0,
    ;
    assert(t / m <= u64::MAX) by (nonlinear_arith)
        requires
            m == n + 1,
            t == q * n + r + d,
            0 <= n,
            0 <= r <= n,
            0 <= q <= u64::MAX,
            0 <= d <= u64::MAX,
            t == m * (t / m) + t % m,
            0 <= t % m < m,
    {
        // t <= MAX * n + n + MAX = (MAX + 1) * m - 1
        assert(q * n <= u64::MAX * n);
        assert(t < (u64::MAX + 1) * m);
        if t / m > u64::MAX {
            assert(m * (t / m) >= m * (u64::MAX + 1));
        }
    }
    assert(0 <= t / m) by (nonlinear_arith)
        requires
            m > 0,
            0 <= t,
    ;
    let after = stats.with_reaction(duration);
    assert(after.react_count == m);
    assert(after.reaction_average_duration == t / m);
    assert(after.reaction_remainder == t % m);
    assert(after.total() == (t / m) * m + t % m);
    assert((t / m) * m == m * (t / m)) by (nonlinear_arith);
}

} // verus!
