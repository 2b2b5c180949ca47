//! The clock and outcome of one level.
//!
//! Time is counted in whole nanoseconds, the unit in which frame durations
//! are measured, so that adding frame times and the fixed penalty is exact.
use vstd::prelude::*;

verus! {

/// Nanoseconds in one second.
pub const NANOS_PER_SECOND: u64 = 1_000_000_000;

/// Time added to the clock for a wrong guess: one second.
pub const PENALTY_NANOS: u64 = 1_000_000_000;

/// `a + b`, held at the largest value a `u64` clock can show.
pub open spec fn capped_sum(a: nat, b: nat) -> nat {
    if a + b > u64::MAX {
        u64::MAX as nat
    } else {
        a + b
    }
}

/// What a level's progress is: the time budget, the time used so far and
/// the two terminal outcomes.
pub ghost struct ProgressState {
    pub max_time: nat,
    pub time_taken: nat,
    pub won: bool,
    pub lost: bool,
}

impl ProgressState {
    /// The level is still being played: neither won nor lost.
    pub open spec fn is_playing(self) -> bool {
        !self.won && !self.lost
    }

    /// Frame time passes. While the level is played the time is added, and
    /// the level is lost once the time used reaches the budget; a finished
    /// level does not change.
    pub open spec fn advanced(self, delta: nat) -> ProgressState {
        if self.is_playing() {
            let t = capped_sum(self.time_taken, delta);
            ProgressState { time_taken: t, lost: t >= self.max_time, ..self }
        } else {
            self
        }
    }

    /// The outcome of comparing the guess with the target: the level is won
    /// exactly when they match, unless it is already lost.
    pub open spec fn checked(self, matched: bool) -> ProgressState {
        ProgressState { won: matched && !self.lost, ..self }
    }

    /// The penalty for a wrong guess is added to the time used.
    pub open spec fn penalized(self) -> ProgressState {
        ProgressState { time_taken: capped_sum(self.time_taken, PENALTY_NANOS as nat), ..self }
    }

    /// Back to the start: no time used, neither won nor lost, same budget.
    pub open spec fn restarted(self) -> ProgressState {
        ProgressState { time_taken: 0, won: false, lost: false, ..self }
    }

    /// The state after advancing by each of `deltas` in turn.
    pub open spec fn advanced_by_all(self, deltas: Seq<nat>) -> ProgressState
        decreases deltas.len(),
    {
        if deltas.len() == 0 {
            self
        } else {
            self.advanced_by_all(deltas.drop_last()).advanced(deltas.last())
        }
    }
}

/// The sum of a sequence of durations.
pub open spec fn total(deltas: Seq<nat>) -> nat
    decreases deltas.len(),
{
    if deltas.len() == 0 {
        0
    } else {
        total(deltas.drop_last()) + deltas.last()
    }
}

/// Restarting clears the clock and both outcomes and keeps the budget; a
/// check made right after it is won exactly when the guess matches.
pub proof fn lemma_restart_resets(s: ProgressState, matched: bool)
    ensures
        s.restarted().time_taken == 0,
        !s.restarted().won,
        !s.restarted().lost,
        s.restarted().max_time == s.max_time,
        s.restarted().checked(matched).won == matched,
{
}

/// A level is never won and lost at once: a fresh level is neither, and
/// every operation keeps the two outcomes apart.
pub proof fn lemma_outcomes_exclusive(s: ProgressState, max_time: nat, delta: nat, matched: bool)
    requires
        !(s.won && s.lost),
    ensures
        !(ProgressState { max_time, time_taken: 0, won: false, lost: false }).won,
        !(ProgressState { max_time, time_taken: 0, won: false, lost: false }).lost,
        !(s.advanced(delta).won && s.advanced(delta).lost),
        !(s.checked(matched).won && s.checked(matched).lost),
        !(s.penalized().won && s.penalized().lost),
        !(s.restarted().won && s.restarted().lost),
{
}

/// Once a level that is not won has advanced, in one or more steps, by a
/// total that reaches its remaining budget, it is lost.
pub proof fn lemma_budget_reached_loses(s: ProgressState, deltas: Seq<nat>)
    requires
        s.max_time <= u64::MAX,
        s.time_taken <= u64::MAX,
        !s.won,
        deltas.len() > 0,
        s.time_taken + total(deltas) >= s.max_time,
    ensures
        s.advanced_by_all(deltas).lost,
{
    let prev = s.advanced_by_all(deltas.drop_last());
    lemma_advancing_never_wins(s, deltas.drop_last());
    assert(s.advanced_by_all(deltas) == prev.advanced(deltas.last()));
    if !prev.lost {
        if deltas.len() > 1 {
            lemma_time_while_playing(s, deltas.drop_last());
        } else {
            assert(total(deltas.drop_last()) == 0);
        }
        assert(prev.time_taken == capped_sum(s.time_taken, total(deltas.drop_last())));
        assert(total(deltas) == total(deltas.drop_last()) + deltas.last());
    }
}

/// Advancing never wins a level that was not won.
proof fn lemma_advancing_never_wins(s: ProgressState, deltas: Seq<nat>)
    requires
        !s.won,
    ensures
        !s.advanced_by_all(deltas).won,
        s.advanced_by_all(deltas).max_time == s.max_time,
    decreases deltas.len(),
{
    if deltas.len() > 0 {
        lemma_advancing_never_wins(s, deltas.drop_last());
    }
}

/// While a level is still played after some advances, its clock shows the
/// capped sum of the start time and all the advances.
proof fn lemma_time_while_playing(s: ProgressState, deltas: Seq<nat>)
    requires
        !s.won,
        s.advanced_by_all(deltas).is_playing(),
        deltas.len() > 0,
    ensures
        s.advanced_by_all(deltas).time_taken == capped_sum(s.time_taken, total(deltas)),
    decreases deltas.len(),
{
    lemma_advancing_never_wins(s, deltas);
    let prev = s.advanced_by_all(deltas.drop_last());
    lemma_advancing_never_wins(s, deltas.drop_last());
    assert(prev.is_playing());
    if deltas.len() > 1 {
        lemma_time_while_playing(s, deltas.drop_last());
    }
}

/// A wrong guess leaves the level not won and adds exactly one second to
/// the time used, when the clock has room for it.
pub proof fn lemma_penalty_is_one_second(s: ProgressState)
    requires
        s.time_taken + PENALTY_NANOS <= u64::MAX,
    ensures
        !s.checked(false).penalized().won,
        s.checked(false).penalized().time_taken == s.time_taken + NANOS_PER_SECOND,
        s.checked(false).penalized().lost == s.lost,
{
}

/// The clock and outcome of one level.
pub struct Progress {
    max_time: u64,
    time_taken: u64,
    won: bool,
    lost: bool,
}

impl View for Progress {
    type V = ProgressState;

    closed spec fn view(&self) -> ProgressState {
        ProgressState {
            max_time: self.max_time as nat,
            time_taken: self.time_taken as nat,
            won: self.won,
            lost: self.lost,
        }
    }
}

impl Progress {
    /// A level is never won and lost at once.
    #[verifier::type_invariant]
    spec fn outcome_is_single(&self) -> bool {
        !(self.won && self.lost)
    }

    /// A fresh level with a budget of `max_time` nanoseconds.
    pub fn new(max_time: u64) -> (p: Progress)
        ensures
            p@ == (ProgressState { max_time: max_time as nat, time_taken: 0, won: false, lost: false }),
    {
        Progress { max_time, time_taken: 0, won: false, lost: false }
    }

    /// The time budget, in nanoseconds.
    pub fn max_time(&self) -> (r: u64)
        ensures
            r == self@.max_time,
    {
        self.max_time
    }

    /// The time used so far, in nanoseconds.
    pub fn time_taken(&self) -> (r: u64)
        ensures
            r == self@.time_taken,
    {
        self.time_taken
    }

    /// Whether the level has been won.
    pub fn won(&self) -> (r: bool)
        ensures
            r == self@.won,
    {
        self.won
    }

    /// Whether the level has been lost, its time budget used up.
    pub fn lost(&self) -> (r: bool)
        ensures
            r == self@.lost,
    {
        self.lost
    }

    /// Whether the level is still being played.
    pub fn is_playing(&self) -> (r: bool)
        ensures
            r == self@.is_playing(),
    {
        !self.won && !self.lost
    }

    /// Lets `delta` nanoseconds of play pass; the level is lost when the time
    /// used reaches the budget. Nothing changes once the level is over.
    pub fn advance(&mut self, delta: u64)
        ensures
            final(self)@ == old(self)@.advanced(delta as nat),
    {
        proof {
            use_type_invariant(&*self);
        }
        if !self.won && !self.lost {
            self.time_taken = self.time_taken.saturating_add(delta);
            if self.time_taken >= self.max_time {
                self.lost = true;
            }
        }
    }

    /// Records the result of comparing the guess with the target: `won`
    /// becomes `matched`, except that a lost level stays lost and is not won.
    pub fn record_check(&mut self, matched: bool)
        ensures
            final(self)@ == old(self)@.checked(matched),
    {
        proof {
            use_type_invariant(&*self);
        }
        self.won = matched && !self.lost;
    }

    /// Adds the one-second penalty for a wrong guess to the time used.
    pub fn apply_penalty(&mut self)
        ensures
            final(self)@ == old(self)@.penalized(),
    {
        proof {
            use_type_invariant(&*self);
        }
        self.time_taken = self.time_taken.saturating_add(PENALTY_NANOS);
    }

    /// Starts the level over with the same budget.
    pub fn restart(&mut self)
        ensures
            final(self)@ == old(self)@.restarted(),
    {
        self.won = false;
        self.lost = false;
        self.time_taken = 0;
    }
}

} // verus!
