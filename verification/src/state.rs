//! The shared counter store and its point-in-time snapshot view.

use vstd::prelude::*;

verus! {

/// An immutable point-in-time reading of both counters.
#[derive(Clone, Copy, Debug, PartialEq, Eq, Structural)]
pub struct StateDto {
    pub good: i64,
    pub evil: i64,
}

impl StateDto {
    /// Both counters are non-negative: they start at zero and only grow.
    pub open spec fn wf(self) -> bool {
        0 <= self.good && 0 <= self.evil
    }
}

/// Adding one to a counter, saturating at `i64::MAX`.
///
/// Counter overflow at the 64-bit boundary is saturating by choice:
/// saturation keeps every counter monotonically non-decreasing, which
/// wrapping would not.
pub open spec fn sat_inc(n: i64) -> i64 {
    if n < i64::MAX {
        (n + 1) as i64
    } else {
        n
    }
}

/// One increment operation, named by the counter it touches.
#[derive(Clone, Copy, Debug, PartialEq, Eq, Structural)]
pub enum Tap {
    Good,
    Evil,
}

/// The effect of one tap on a snapshot of the store.
pub open spec fn apply_tap(s: StateDto, t: Tap) -> StateDto {
    match t {
        Tap::Good => StateDto { good: sat_inc(s.good), evil: s.evil },
        Tap::Evil => StateDto { good: s.good, evil: sat_inc(s.evil) },
    }
}

/// The effect of a sequence of taps, applied first to last.
pub open spec fn apply_taps(s: StateDto, ts: Seq<Tap>) -> StateDto
    decreases ts.len(),
{
    if ts.len() == 0 {
        s
    } else {
        apply_taps(apply_tap(s, ts[0]), ts.subrange(1, ts.len() as int))
    }
}

/// The shared counter store: the single source of truth for both tallies.
///
/// Each counter starts at zero and only ever grows (by saturating
/// increments), so `wf()` holds for the store's whole lifetime.
pub struct AppState {
    pub good: i64,
    pub evil: i64,
}

impl AppState {
    /// Both counters are non-negative.
    pub open spec fn wf(self) -> bool {
        0 <= self.good && 0 <= self.evil
    }

    /// The abstract value of the store: a snapshot of both counters.
    pub open spec fn dto(self) -> StateDto {
        StateDto { good: self.good, evil: self.evil }
    }

    /// A fresh store with both counters at zero.
    pub fn new() -> (r: AppState)
        ensures
            r.good == 0,
            r.evil == 0,
            r.wf(),
    {
        AppState { good: 0, evil: 0 }
    }

    /// Adds one to `good` (saturating at `i64::MAX`); `evil` is untouched.
    pub fn tap_good(&mut self)
        requires
            old(self).wf(),
        ensures
            final(self).dto() == apply_tap(old(self).dto(), Tap::Good),
            final(self).good == sat_inc(old(self).good),
            final(self).evil == old(self).evil,
            final(self).good >= old(self).good,
            final(self).wf(),
    {
        if self.good < i64::MAX {
            self.good = self.good + 1;
        }
    }

    /// Adds one to `evil` (saturating at `i64::MAX`); `good` is untouched.
    pub fn tap_evil(&mut self)
        requires
            old(self).wf(),
        ensures
            final(self).dto() == apply_tap(old(self).dto(), Tap::Evil),
            final(self).evil == sat_inc(old(self).evil),
            final(self).good == old(self).good,
            final(self).evil >= old(self).evil,
            final(self).wf(),
    {
        if self.evil < i64::MAX {
            self.evil = self.evil + 1;
        }
    }

    /// Reads both counters into a fresh snapshot; no side effect.
    pub fn snapshot(&self) -> (r: StateDto)
        ensures
            r == self.dto(),
            r.good == self.good,
            r.evil == self.evil,
            self.wf() ==> r.wf(),
    {
        StateDto { good: self.good, evil: self.evil }
    }
}

impl Default for AppState {
    /// The default store is the fresh store: both counters at zero.
    fn default() -> (r: AppState)
        ensures
            r.good == 0,
            r.evil == 0,
            r.wf(),
    {
        AppState::new()
    }
}

/// Increments commute: two taps reach the same state in either order.
/// This is what makes per-counter atomic increments sound under
/// arbitrary interleaving of concurrent callers.
pub proof fn lemma_taps_commute(s: StateDto, t1: Tap, t2: Tap)
    ensures
        apply_tap(apply_tap(s, t1), t2) == apply_tap(apply_tap(s, t2), t1),
{
}

/// A run of good-only taps adds exactly its length to `good` and leaves
/// `evil` unchanged, as long as the sum stays within the 64-bit range.
pub proof fn lemma_tap_good_sequence(s: StateDto, ts: Seq<Tap>)
    requires
        forall|i: int| 0 <= i < ts.len() ==> ts[i] == Tap::Good,
        s.good + ts.len() <= i64::MAX,
    ensures
        apply_taps(s, ts).good == s.good + ts.len(),
        apply_taps(s, ts).evil == s.evil,
    decreases ts.len(),
{
    if ts.len() > 0 {
        assert(ts[0] == Tap::Good);
        let rest = ts.subrange(1, ts.len() as int);
        assert(forall|i: int| 0 <= i < rest.len() ==> rest[i] == Tap::Good);
        lemma_tap_good_sequence(apply_tap(s, ts[0]), rest);
    }
}

/// Reading the store is idempotent: two snapshots of the same store
/// state are identical.
pub proof fn lemma_read_state_idempotent(st: AppState, s1: StateDto, s2: StateDto)
    requires
        s1 == st.dto(),
        s2 == st.dto(),
    ensures
        s1 == s2,
{
}

} // verus!
