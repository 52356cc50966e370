//! The life of a worker, from spawn to termination.
//!
//! ```text
//! Spawning -> AwaitingReady -> Ready -> Busy -> Ready -> .. -> Terminated
//! ```
//!
//! A worker is spawned, waits through its handshake, and then alternates
//! between sitting ready in the supervisor's slot and being busy with one
//! request. A failed spawn, a failed handshake, a request that ends in
//! anything but done, and a newer worker taking its place terminate it, and a
//! terminated worker never comes back.

use crate::handshake::{HandshakeStep, HandshakeStepView};
use crate::stream::{Ending, EndingView};
use vstd::prelude::*;

verus! {

/// Where a worker is in its life.
#[derive(Debug, Clone, Copy, PartialEq, Eq, Structural)]
pub enum WorkerState {
    /// The process is being started.
    Spawning,
    /// The process runs and has not reported readiness yet.
    AwaitingReady,
    /// Idle in the slot, available for checkout.
    Ready,
    /// Checked out and serving exactly one request.
    Busy,
    /// Dropped. Its resources are released and it is never stored again.
    Terminated,
}

/// What happens to a worker.
#[derive(Debug, Clone, Copy, PartialEq, Eq, Structural)]
pub enum WorkerEvent {
    /// The process was started with its pipes.
    Spawned,
    /// The process could not be started.
    SpawnFailed,
    /// The handshake ended in readiness.
    BecameReady,
    /// The handshake ended in failure.
    HandshakeFailed,
    /// A request checked the worker out of the slot.
    CheckedOut,
    /// The request ended with done.
    RequestCompleted,
    /// The request ended in any other way.
    RequestFailed,
    /// Another worker was stored in its place.
    Superseded,
}

/// The state that `event` leads to from `state`, if it can happen there.
pub open spec fn transition(state: WorkerState, event: WorkerEvent) -> Option<WorkerState> {
    match (state, event) {
        (WorkerState::Spawning, WorkerEvent::Spawned) => Some(WorkerState::AwaitingReady),
        (WorkerState::Spawning, WorkerEvent::SpawnFailed) => Some(WorkerState::Terminated),
        (WorkerState::AwaitingReady, WorkerEvent::BecameReady) => Some(WorkerState::Ready),
        (WorkerState::AwaitingReady, WorkerEvent::HandshakeFailed) => Some(WorkerState::Terminated),
        (WorkerState::Ready, WorkerEvent::CheckedOut) => Some(WorkerState::Busy),
        (WorkerState::Ready, WorkerEvent::Superseded) => Some(WorkerState::Terminated),
        (WorkerState::Busy, WorkerEvent::RequestCompleted) => Some(WorkerState::Ready),
        (WorkerState::Busy, WorkerEvent::RequestFailed) => Some(WorkerState::Terminated),
        _ => None,
    }
}

/// The state after all of `events`, in order, from `state`; none if one of
/// them cannot happen where it stands.
pub open spec fn state_after(state: WorkerState, events: Seq<WorkerEvent>) -> Option<WorkerState>
    decreases events.len(),
{
    if events.len() == 0 {
        Some(state)
    } else {
        match transition(state, events[0]) {
            Some(next) => state_after(next, events.drop_first()),
            None => None,
        }
    }
}

/// What the verdict of a handshake means to the worker; nothing while the
/// handshake is still waiting.
pub open spec fn handshake_event(step: HandshakeStepView) -> Option<WorkerEvent> {
    match step {
        HandshakeStepView::Ready => Some(WorkerEvent::BecameReady),
        HandshakeStepView::Failed(_) => Some(WorkerEvent::HandshakeFailed),
        HandshakeStepView::Waiting(_) => None,
    }
}

/// What the end of a request means to the worker that served it.
pub open spec fn request_event(ending: EndingView) -> WorkerEvent {
    match ending {
        EndingView::Completed => WorkerEvent::RequestCompleted,
        _ => WorkerEvent::RequestFailed,
    }
}

/// The state of a worker whose handshake stands at `step`: still awaiting
/// readiness while the handshake waits, then ready or terminated.
pub open spec fn state_after_handshake(step: HandshakeStepView) -> WorkerState {
    match handshake_event(step) {
        Some(event) => transition(WorkerState::AwaitingReady, event).unwrap(),
        None => WorkerState::AwaitingReady,
    }
}

/// The state of a busy worker once its request has ended as `ending`.
pub open spec fn state_after_request(ending: EndingView) -> WorkerState {
    transition(WorkerState::Busy, request_event(ending)).unwrap()
}

impl WorkerState {
    /// The state that `event` leads to, if it can happen in this state.
    pub fn on(self, event: WorkerEvent) -> (next: Option<WorkerState>)
        ensures
            next == transition(self, event),
    {
        match (self, event) {
            (WorkerState::Spawning, WorkerEvent::Spawned) => Some(WorkerState::AwaitingReady),
            (WorkerState::Spawning, WorkerEvent::SpawnFailed) => Some(WorkerState::Terminated),
            (WorkerState::AwaitingReady, WorkerEvent::BecameReady) => Some(WorkerState::Ready),
            (WorkerState::AwaitingReady, WorkerEvent::HandshakeFailed) => Some(
                WorkerState::Terminated,
            ),
            (WorkerState::Ready, WorkerEvent::CheckedOut) => Some(WorkerState::Busy),
            (WorkerState::Ready, WorkerEvent::Superseded) => Some(WorkerState::Terminated),
            (WorkerState::Busy, WorkerEvent::RequestCompleted) => Some(WorkerState::Ready),
            (WorkerState::Busy, WorkerEvent::RequestFailed) => Some(WorkerState::Terminated),
            _ => None,
        }
    }

    /// Whether a worker in this state may sit in the supervisor's slot.
    pub fn is_storable(self) -> (storable: bool)
        ensures
            storable == (self == WorkerState::Ready),
    {
        match self {
            WorkerState::Ready => true,
            _ => false,
        }
    }
}

impl WorkerEvent {
    /// What the verdict of a handshake means to the worker.
    pub fn of_handshake(step: &HandshakeStep) -> (event: Option<WorkerEvent>)
        ensures
            event == handshake_event(step@),
    {
        match step {
            HandshakeStep::Ready => Some(WorkerEvent::BecameReady),
            HandshakeStep::Failed(_) => Some(WorkerEvent::HandshakeFailed),
            HandshakeStep::Waiting(_) => None,
        }
    }

    /// What the end of a request means to the worker that served it.
    pub fn of_request(ending: &Ending) -> (event: WorkerEvent)
        ensures
            event == request_event(ending@),
    {
        match ending {
            Ending::Completed => WorkerEvent::RequestCompleted,
            _ => WorkerEvent::RequestFailed,
        }
    }
}

/// Nothing happens to a terminated worker: whatever is tried, it never
/// reaches another state.
pub proof fn lemma_terminated_is_final(events: Seq<WorkerEvent>)
    ensures
        state_after(WorkerState::Terminated, events) == if events.len() == 0 {
            Some(WorkerState::Terminated)
        } else {
            None
        },
{
}

/// A busy worker becomes ready again only by completing its request.
pub proof fn lemma_busy_returns_only_on_done(event: WorkerEvent)
    ensures
        transition(WorkerState::Busy, event) == Some(WorkerState::Ready) <==> event
            == WorkerEvent::RequestCompleted,
{
}

/// A worker is never ready before its handshake has ended in readiness:
/// every life from spawn that reaches `Ready` or `Busy` holds that event.
pub proof fn lemma_ready_only_after_handshake(events: Seq<WorkerEvent>)
    requires
        state_after(WorkerState::Spawning, events) == Some(WorkerState::Ready) || state_after(
            WorkerState::Spawning,
            events,
        ) == Some(WorkerState::Busy),
    ensures
        events.len() >= 2,
        events[0] == WorkerEvent::Spawned,
        events[1] == WorkerEvent::BecameReady,
{
    reveal_with_fuel(state_after, 3);
    let rest = events.drop_first();
    lemma_terminated_is_final(rest);
    lemma_terminated_is_final(rest.drop_first());
    assert(events.len() > 0);
    assert(events[0] == WorkerEvent::Spawned);
    assert(rest.len() > 0);
    assert(rest[0] == events[1]);
}

/// Between two requests a worker is ready: from `Ready`, any number of
/// requests that each end with done lead back to `Ready`.
pub proof fn lemma_completed_requests_keep_ready(requests: nat)
    ensures
        state_after(WorkerState::Ready, served(requests)) == Some(WorkerState::Ready),
    decreases requests,
{
    reveal_with_fuel(state_after, 3);
    if requests > 0 {
        lemma_completed_requests_keep_ready((requests - 1) as nat);
        let events = served(requests);
        let rest = served((requests - 1) as nat);
        assert(events.drop_first().drop_first() =~= rest);
        assert(events[0] == WorkerEvent::CheckedOut);
        assert(events.drop_first()[0] == WorkerEvent::RequestCompleted);
    }
}

/// The events of `requests` requests served one after the other, each
/// checked out and completed.
pub open spec fn served(requests: nat) -> Seq<WorkerEvent>
    decreases requests,
{
    if requests == 0 {
        Seq::empty()
    } else {
        seq![WorkerEvent::CheckedOut, WorkerEvent::RequestCompleted] + served(
            (requests - 1) as nat,
        )
    }
}

} // verus!
