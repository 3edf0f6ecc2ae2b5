//! The two background loops of a live session and the supervisor that races
//! them, modelled as decision functions from events to outcomes.
//!
//! The surrounding runtime performs the reads, writes and timer waits and
//! hands each outcome to these functions; every decision the loops make is
//! taken here.

use vstd::prelude::*;
use crate::DecodeError;
use crate::SessionError;
use crate::TransportError;
use crate::join::Packet;

verus! {

/// What one attempt to read and dispatch an inbound packet reported.
#[derive(Clone, Copy, Debug, PartialEq, Eq, Structural)]
pub enum InboundEvent {
    /// A packet was read and a handler ran it.
    Dispatched,
    /// A packet was read but no handler is registered for its identifier.
    NoHandler,
    /// The transport failed (or reached a clean end of stream).
    Transport(TransportError),
}

/// What the inbound drain loop does after one attempt.
#[derive(Clone, Copy, Debug, PartialEq, Eq, Structural)]
pub enum DrainStep {
    /// Keep looping: the attempt was handled or deliberately ignored.
    Continue,
    /// Stop looping: the attempt ended the session.
    Stop(DrainResult),
}

/// How a finished inbound drain loop ended.
#[derive(Clone, Copy, Debug, PartialEq, Eq, Structural)]
pub enum DrainResult {
    /// Clean end of stream: normal termination.
    Finished,
    /// Any other transport failure, propagated.
    Failed(u32),
}

/// The inbound drain policy for a single attempt: successful dispatch and
/// "no handler found" both continue the loop, a clean end of stream stops it
/// with success, and any other transport failure stops it with that failure.
pub fn drain_step(event: InboundEvent) -> (step: DrainStep)
    ensures
        step == spec_drain_step(event),
{
    match event {
        InboundEvent::Dispatched => DrainStep::Continue,
        InboundEvent::NoHandler => DrainStep::Continue,
        InboundEvent::Transport(TransportError::Eof) => {
            DrainStep::Stop(DrainResult::Finished)
        },
        InboundEvent::Transport(TransportError::Failed(code)) => {
            DrainStep::Stop(DrainResult::Failed(code))
        },
    }
}

/// What [`drain_step`] returns, stated once so that the loop-level results
/// below can be written over event sequences.
pub open spec fn spec_drain_step(event: InboundEvent) -> DrainStep {
    match event {
        InboundEvent::Dispatched => DrainStep::Continue,
        InboundEvent::NoHandler => DrainStep::Continue,
        InboundEvent::Transport(TransportError::Eof) => {
            DrainStep::Stop(DrainResult::Finished)
        },
        InboundEvent::Transport(TransportError::Failed(code)) => {
            DrainStep::Stop(DrainResult::Failed(code))
        },
    }
}

/// What the drain loop yields over a finite trace of attempts: the result of
/// the first attempt that stops it, or nothing if every attempt continues
/// (the loop is then still running when the trace ends).
pub open spec fn spec_drain_result(events: Seq<InboundEvent>) -> Option<DrainResult>
    decreases events,
{
    if events.len() == 0 {
        None
    } else {
        match spec_drain_step(events.first()) {
            DrainStep::Continue => spec_drain_result(events.drop_first()),
            DrainStep::Stop(r) => Some(r),
        }
    }
}

/// Runs the drain policy over a finite trace of attempts, exactly as
/// [`spec_drain_result`] says.
pub fn run_drain(events: &Vec<InboundEvent>) -> (r: Option<DrainResult>)
    ensures
        r == spec_drain_result(events@),
{
    proof {
        assert(events@.skip(0) =~= events@);
    }
    let mut i: usize = 0;
    while i < events.len()
        invariant
            i <= events@.len(),
            spec_drain_result(events@) == spec_drain_result(events@.skip(i as int)),
        decreases events@.len() - i,
    {
        proof {
            assert(events@.skip(i as int).first() == events@[i as int]);
            assert(events@.skip(i as int).drop_first() =~= events@.skip(i + 1));
        }
        match drain_step(events[i]) {
            DrainStep::Continue => {
                i = i + 1;
            },
            DrainStep::Stop(r) => {
                return Some(r);
            },
        }
    }
    None
}

/// Law: the drain loop terminates with success, not an error, at a clean end
/// of stream; every earlier attempt that merely dispatched a packet or found
/// no handler for one was absorbed without ending the loop.
pub proof fn lemma_drain_stops_cleanly_at_eof(events: Seq<InboundEvent>, i: int)
    requires
        0 <= i < events.len(),
        events[i] == InboundEvent::Transport(TransportError::Eof),
        forall|j: int| 0 <= j < i ==> (events[j] == InboundEvent::Dispatched || events[j]
            == InboundEvent::NoHandler),
    ensures
        spec_drain_result(events) == Some(DrainResult::Finished),
    decreases i,
{
    if i > 0 {
        lemma_drain_stops_cleanly_at_eof(events.drop_first(), i - 1);
    }
}

/// Law: repeated "no handler found" outcomes (and successful dispatches)
/// never terminate the drain loop: after any such trace it is still looping.
pub proof fn lemma_drain_continues_on_no_handler(events: Seq<InboundEvent>)
    requires
        forall|j: int| 0 <= j < events.len() ==> (events[j] == InboundEvent::Dispatched
            || events[j] == InboundEvent::NoHandler),
    ensures
        spec_drain_result(events) is None,
    decreases events,
{
    if events.len() > 0 {
        lemma_drain_continues_on_no_handler(events.drop_first());
    }
}

/// The liveness cadence: one keep-alive every five seconds.
pub const KEEP_ALIVE_INTERVAL_MS: u64 = 5000;

/// How many keep-alives fall within a window of session time: one at time
/// zero and one at every whole interval boundary before the window ends.
pub open spec fn spec_keep_alive_count(total_ms: u64, interval_ms: u64) -> int
    recommends
        interval_ms > 0,
{
    if total_ms == 0 {
        0
    } else {
        (total_ms - 1) / (interval_ms as int) + 1
    }
}

/// Law: a tick lands inside the window exactly when its index is below the
/// count — [`spec_keep_alive_count`] counts the ticks and no more.
pub proof fn lemma_keep_alive_count_exact(total_ms: u64, interval_ms: u64, k: int)
    requires
        interval_ms > 0,
        k >= 0,
    ensures
        (k * interval_ms < total_ms) <==> (k < spec_keep_alive_count(total_ms, interval_ms)),
{
    if total_ms == 0 {
        assert(k * interval_ms >= 0) by (nonlinear_arith)
            requires
                k >= 0,
                interval_ms > 0,
        ;
    } else {
        let t = total_ms as int;
        let d = interval_ms as int;
        let q = (t - 1) / d;
        let r = (t - 1) % d;
        vstd::arithmetic::div_mod::lemma_fundamental_div_mod(t - 1, d);
        vstd::arithmetic::div_mod::lemma_mod_bound(t - 1, d);
        assert((k <= q) ==> (k * d < t)) by (nonlinear_arith)
            requires
                t - 1 == d * q + r,
                0 <= r < d,
                k >= 0,
                d > 0,
        ;
        assert((k > q) ==> (k * d >= t)) by (nonlinear_arith)
            requires
                t - 1 == d * q + r,
                0 <= r < d,
                k >= 0,
                d > 0,
        ;
    }
}

/// The emission schedule of the Liveness Broadcaster over a simulated window:
/// the times, in milliseconds from the handoff, at which a keep-alive is due.
/// The first tick is at time zero, the rest at whole interval boundaries
/// inside the window.
pub fn keep_alive_schedule(total_ms: u64, interval_ms: u64) -> (ticks: Vec<u64>)
    requires
        interval_ms > 0,
    ensures
        ticks@.len() == spec_keep_alive_count(total_ms, interval_ms),
        forall|i: int| 0 <= i < ticks@.len() ==> ticks@[i] == i * interval_ms,
{
    let count: u64 = if total_ms == 0 {
        0
    } else {
        (total_ms - 1) / interval_ms + 1
    };
    let mut ticks: Vec<u64> = Vec::new();
    let mut i: u64 = 0;
    while i < count
        invariant
            interval_ms > 0,
            count == spec_keep_alive_count(total_ms, interval_ms),
            i <= count,
            ticks@.len() == i,
            forall|j: int| 0 <= j < i ==> ticks@[j] == j * interval_ms,
        decreases count - i,
    {
        proof {
            lemma_keep_alive_count_exact(total_ms, interval_ms, i as int);
        }
        ticks.push(i * interval_ms);
        i = i + 1;
    }
    ticks
}

/// The keep-alive identifier for an emission: the wall clock at emission
/// time, in milliseconds since the epoch, as the 64-bit identifier.
pub open spec fn spec_keep_alive_id(now_unix_ms: u64) -> u64 {
    now_unix_ms
}

/// The identifier a keep-alive packet carries, or zero for any other packet.
pub open spec fn spec_keep_alive_id_of(p: Packet) -> u64 {
    match p {
        Packet::KeepAlive { id } => id,
        _ => 0,
    }
}

/// The keep-alive packets for a run of clock readings, one per emission,
/// each carrying the reading at its emission as its identifier.
pub fn keep_alive_packets(clock_readings_ms: &Vec<u64>) -> (ps: Vec<Packet>)
    ensures
        ps@.len() == clock_readings_ms@.len(),
        forall|i: int| 0 <= i < ps@.len() ==> ps@[i] == (Packet::KeepAlive {
            id: spec_keep_alive_id(clock_readings_ms@[i]),
        }),
{
    let mut ps: Vec<Packet> = Vec::new();
    let mut i: usize = 0;
    while i < clock_readings_ms.len()
        invariant
            i <= clock_readings_ms@.len(),
            ps@.len() == i,
            forall|j: int| 0 <= j < i ==> ps@[j] == (Packet::KeepAlive {
                id: spec_keep_alive_id(clock_readings_ms@[j]),
            }),
        decreases clock_readings_ms@.len() - i,
    {
        ps.push(Packet::KeepAlive { id: clock_readings_ms[i] });
        i = i + 1;
    }
    ps
}

/// Law: keep-alive identifiers are monotonically non-decreasing. Each
/// identifier is the wall clock at its emission, so packets emitted under a
/// non-decreasing clock carry non-decreasing identifiers.
pub proof fn lemma_keep_alive_ids_nondecreasing(clock_readings_ms: Seq<u64>, ps: Seq<Packet>)
    requires
        ps.len() == clock_readings_ms.len(),
        forall|i: int| 0 <= i < ps.len() ==> ps[i] == (Packet::KeepAlive {
            id: spec_keep_alive_id(clock_readings_ms[i]),
        }),
        forall|i: int, j: int| 0 <= i <= j < clock_readings_ms.len() ==> clock_readings_ms[i]
            <= clock_readings_ms[j],
    ensures
        forall|i: int, j: int| 0 <= i <= j < ps.len() ==> spec_keep_alive_id_of(ps[i])
            <= spec_keep_alive_id_of(ps[j]),
{
}

/// How a session ends, as the supervisor sees it: the join sequence failed
/// before the loops began (on a decode or on a write), or the first of the
/// two background loops finished.
#[derive(Clone, Copy, Debug, PartialEq, Eq, Structural)]
pub enum SessionEnd {
    /// Loading the dimension registry for the join sequence failed.
    JoinDecodeFailed(DecodeError),
    /// A write of an onboarding packet failed; the rest of the sequence was
    /// abandoned.
    JoinWriteFailed(TransportError),
    /// Both loops were running and one finished first.
    FirstFinished(RaceEnd),
}

/// Which background loop finished first, and how. The Liveness Broadcaster
/// runs indefinitely and finishes only on a write failure, which it carries.
#[derive(Clone, Copy, Debug, PartialEq, Eq, Structural)]
pub enum RaceEnd {
    /// The Liveness Broadcaster hit a write failure.
    Pings(TransportError),
    /// The Inbound Drain Loop stopped.
    Drain(DrainResult),
}

/// What the session returns for each way it can end.
pub open spec fn spec_session_result(end: SessionEnd) -> Result<(), SessionError> {
    match end {
        SessionEnd::JoinDecodeFailed(e) => Err(SessionError::Decode(e)),
        SessionEnd::JoinWriteFailed(e) => Err(SessionError::Transport(e)),
        SessionEnd::FirstFinished(RaceEnd::Pings(e)) => Err(SessionError::Transport(e)),
        SessionEnd::FirstFinished(RaceEnd::Drain(DrainResult::Finished)) => Ok(()),
        SessionEnd::FirstFinished(RaceEnd::Drain(DrainResult::Failed(code))) => Err(
            SessionError::Transport(TransportError::Failed(code)),
        ),
    }
}

/// The Session Supervisor's resolution: a join failure surfaces as the
/// session's error; otherwise the session's outcome is the outcome of
/// whichever loop finished first — success exactly when the inbound source
/// reached a clean end of stream.
pub fn session_result(end: SessionEnd) -> (r: Result<(), SessionError>)
    ensures
        r == spec_session_result(end),
{
    match end {
        SessionEnd::JoinDecodeFailed(e) => Err(SessionError::Decode(e)),
        SessionEnd::JoinWriteFailed(e) => Err(SessionError::Transport(e)),
        SessionEnd::FirstFinished(RaceEnd::Pings(e)) => Err(SessionError::Transport(e)),
        SessionEnd::FirstFinished(RaceEnd::Drain(DrainResult::Finished)) => Ok(()),
        SessionEnd::FirstFinished(RaceEnd::Drain(DrainResult::Failed(code))) => Err(
            SessionError::Transport(TransportError::Failed(code)),
        ),
    }
}

} // verus!
