//! The live-update stream session: a per-connection state machine that
//! emits one snapshot event per timer tick until the client disconnects.

use vstd::prelude::*;

use crate::codec::{json_of, serialize};
use crate::state::{AppState, StateDto};

verus! {

/// The fixed period of a session's recurring timer, in milliseconds.
pub const STREAM_TICK_MILLIS: u64 = 200;

/// What the transport reports to a session.
#[derive(Clone, Copy, Debug, PartialEq, Eq, Structural)]
pub enum SessionEvent {
    /// The session's recurring timer fired.
    TimerFired,
    /// The client disconnected or the transport failed.
    Disconnected,
}

/// What the session asks the transport to do in return.
#[derive(Debug)]
pub enum SessionAction {
    /// Push one event of type `state` whose payload is the serialized snapshot.
    EmitState(Vec<u8>),
    /// Cancel the session's recurring timer and release it.
    CancelTimer,
    /// Do nothing.
    Idle,
}

/// One live-update session. `timer_active` is whether the session's
/// recurring timer resource is still held; `ticks` counts the events
/// emitted so far.
#[derive(Clone, Copy, Debug, PartialEq, Eq, Structural)]
pub struct StreamSession {
    pub timer_active: bool,
    pub ticks: u64,
}

/// The session state after one timer firing: one more emitted tick if
/// the session is still open, no change otherwise.
pub open spec fn spec_on_timer(s: StreamSession) -> StreamSession {
    if s.timer_active {
        StreamSession { timer_active: true, ticks: (s.ticks + 1) as u64 }
    } else {
        s
    }
}

/// The session state after `n` timer firings.
pub open spec fn run_timers(s: StreamSession, n: nat) -> StreamSession
    decreases n,
{
    if n == 0 {
        s
    } else {
        run_timers(spec_on_timer(s), (n - 1) as nat)
    }
}

impl StreamSession {
    /// Opens a fresh session: the recurring timer is started and nothing
    /// has been emitted yet.
    pub fn open_session() -> (r: StreamSession)
        ensures
            r.timer_active,
            r.ticks == 0,
    {
        StreamSession { timer_active: true, ticks: 0 }
    }

    /// One step of the session state machine.
    ///
    /// While open, every timer firing emits exactly one `state` event
    /// carrying the serialized current snapshot; the session never closes
    /// on its own. A disconnect releases the timer at once (before the
    /// next tick) and emits nothing; after that, further timer firings
    /// are ignored.
    pub fn on_event(&mut self, ev: SessionEvent, store: &AppState) -> (r: SessionAction)
        requires
            store.wf(),
            old(self).ticks < u64::MAX,
        ensures
            ev == SessionEvent::TimerFired ==> *final(self) == spec_on_timer(*old(self)),
            ev == SessionEvent::TimerFired && old(self).timer_active ==> (r matches
                SessionAction::EmitState(d) && d@ == json_of(
                store.good as int,
                store.evil as int,
            )),
            ev == SessionEvent::TimerFired && !old(self).timer_active ==> (r matches
                SessionAction::Idle),
            ev == SessionEvent::Disconnected ==> !final(self).timer_active && final(self).ticks
                == old(self).ticks,
            ev == SessionEvent::Disconnected && old(self).timer_active ==> (r matches
                SessionAction::CancelTimer),
            ev == SessionEvent::Disconnected && !old(self).timer_active ==> *final(self) == *old(
                self,
            ) && (r matches SessionAction::Idle),
    {
        match ev {
            SessionEvent::TimerFired => {
                if self.timer_active {
                    self.ticks = self.ticks + 1;
                    SessionAction::EmitState(serialize(&store.snapshot()))
                } else {
                    SessionAction::Idle
                }
            },
            SessionEvent::Disconnected => {
                if self.timer_active {
                    self.timer_active = false;
                    SessionAction::CancelTimer
                } else {
                    SessionAction::Idle
                }
            },
        }
    }
}

/// The bytes of `event: state\ndata: `.
pub open spec fn sse_state_header() -> Seq<u8> {
    seq![
        101u8, 118u8, 101u8, 110u8, 116u8, 58u8, 32u8, 115u8, 116u8, 97u8, 116u8, 101u8, 10u8,
        100u8, 97u8, 116u8, 97u8, 58u8, 32u8,
    ]
}

/// One complete `state` event on the wire:
/// `event: state\ndata: {"good":G,"evil":E}\n\n`.
pub open spec fn sse_state_frame(g: int, e: int) -> Seq<u8> {
    sse_state_header() + json_of(g, e) + seq![10u8, 10u8]
}

/// One complete `error` event on the wire: `event: error\ndata: {}\n\n`.
pub open spec fn sse_error_frame() -> Seq<u8> {
    seq![
        101u8, 118u8, 101u8, 110u8, 116u8, 58u8, 32u8, 101u8, 114u8, 114u8, 111u8, 114u8, 10u8,
        100u8, 97u8, 116u8, 97u8, 58u8, 32u8, 123u8, 125u8, 10u8, 10u8,
    ]
}

/// Frames one snapshot as a complete `state` event for a raw
/// server-push transport.
pub fn sse_state_event(s: &StateDto) -> (r: Vec<u8>)
    requires
        s.wf(),
    ensures
        r@ == sse_state_frame(s.good as int, s.evil as int),
{
    let mut out: Vec<u8> = Vec::new();
    out.push(101);
    out.push(118);
    out.push(101);
    out.push(110);
    out.push(116);
    out.push(58);
    out.push(32);
    out.push(115);
    out.push(116);
    out.push(97);
    out.push(116);
    out.push(101);
    out.push(10);
    out.push(100);
    out.push(97);
    out.push(116);
    out.push(97);
    out.push(58);
    out.push(32);
    assert(out@ =~= sse_state_header());
    let mut payload = serialize(s);
    out.append(&mut payload);
    out.push(10);
    out.push(10);
    assert(out@ =~= sse_state_frame(s.good as int, s.evil as int));
    out
}

/// Frames the `error` event pushed in place of a snapshot when a tick's
/// payload cannot be produced; the session keeps ticking afterwards.
pub fn sse_error_event() -> (r: Vec<u8>)
    ensures
        r@ == sse_error_frame(),
{
    let mut out: Vec<u8> = Vec::new();
    out.push(101);
    out.push(118);
    out.push(101);
    out.push(110);
    out.push(116);
    out.push(58);
    out.push(32);
    out.push(101);
    out.push(114);
    out.push(114);
    out.push(111);
    out.push(114);
    out.push(10);
    out.push(100);
    out.push(97);
    out.push(116);
    out.push(97);
    out.push(58);
    out.push(32);
    out.push(123);
    out.push(125);
    out.push(10);
    out.push(10);
    assert(out@ =~= sse_error_frame());
    out
}

/// An open session observed for `n` timer firings is still open and has
/// emitted exactly `n` events, one per tick: the stream never ends on
/// its own, and no tick is dropped or duplicated.
pub proof fn lemma_session_ticks(s: StreamSession, n: nat)
    requires
        s.timer_active,
        s.ticks + n <= u64::MAX,
    ensures
        run_timers(s, n).timer_active,
        run_timers(s, n).ticks == s.ticks + n,
    decreases n,
{
    if n > 0 {
        lemma_session_ticks(spec_on_timer(s), (n - 1) as nat);
    }
}

} // verus!
