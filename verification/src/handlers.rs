//! The three request operations: read the snapshot, tap `good`, tap `evil`.
//!
//! Each tap operation returns the snapshot taken immediately after its
//! own mutation, never a stale pre-mutation value.

use vstd::prelude::*;

use crate::state::{apply_tap, sat_inc, AppState, StateDto, Tap};

verus! {

/// Reads the current snapshot; no side effect.
pub fn get_state(state: &AppState) -> (r: StateDto)
    ensures
        r == state.dto(),
        state.wf() ==> r.wf(),
{
    state.snapshot()
}

/// Adds one to `good` (saturating), then returns the post-mutation snapshot.
pub fn tap_good(state: &mut AppState) -> (r: StateDto)
    requires
        old(state).wf(),
    ensures
        final(state).dto() == apply_tap(old(state).dto(), Tap::Good),
        final(state).good == sat_inc(old(state).good),
        final(state).evil == old(state).evil,
        final(state).wf(),
        r == final(state).dto(),
        r.wf(),
{
    state.tap_good();
    state.snapshot()
}

/// Adds one to `evil` (saturating), then returns the post-mutation snapshot.
pub fn tap_evil(state: &mut AppState) -> (r: StateDto)
    requires
        old(state).wf(),
    ensures
        final(state).dto() == apply_tap(old(state).dto(), Tap::Evil),
        final(state).evil == sat_inc(old(state).evil),
        final(state).good == old(state).good,
        final(state).wf(),
        r == final(state).dto(),
        r.wf(),
{
    state.tap_evil();
    state.snapshot()
}

} // verus!
