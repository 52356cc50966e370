//! The readiness handshake of a freshly started worker.
//!
//! After it is spawned a worker loads its model and then writes
//! `{"ready": true}`. Until then its output may hold anything: blank lines,
//! log lines, unrelated JSON. The handshake reads on through all of that, but
//! not forever: after `HANDSHAKE_LINE_LIMIT` lines without readiness it gives
//! up. An `{"error": ..}` line, a closed stream or a failed read end it at
//! once.
//!
//! Before readiness only `error` and `ready` are looked at: a line whose
//! object holds `ready: true` reports readiness whatever else it holds,
//! unless it holds an `error` text.

use crate::protocol::{decode_startup, decoded_startup, inputs_view, LineInput, LineInputView,
    ProtocolMessage, ProtocolMessageView};
use crate::text::{trim, trimmed};
use vstd::prelude::*;

verus! {

/// How many lines a worker may write before it reports readiness.
pub const HANDSHAKE_LINE_LIMIT: u32 = 10_000;

/// Why a worker did not become ready.
#[derive(Debug, Clone, PartialEq, Eq)]
pub enum HandshakeFault {
    /// The worker's output closed before it reported readiness.
    Closed,
    /// Reading the worker's output failed.
    ReadFailed { reason: String },
    /// The worker reported an error instead of readiness.
    Reported { message: String },
    /// The worker wrote `HANDSHAKE_LINE_LIMIT` lines, none of them readiness.
    TimedOut,
}

pub enum HandshakeFaultView {
    Closed,
    ReadFailed { reason: Seq<char> },
    Reported { message: Seq<char> },
    TimedOut,
}

impl View for HandshakeFault {
    type V = HandshakeFaultView;

    open spec fn view(&self) -> HandshakeFaultView {
        match self {
            HandshakeFault::Closed => HandshakeFaultView::Closed,
            HandshakeFault::ReadFailed { reason } => HandshakeFaultView::ReadFailed {
                reason: reason@,
            },
            HandshakeFault::Reported { message } => HandshakeFaultView::Reported {
                message: message@,
            },
            HandshakeFault::TimedOut => HandshakeFaultView::TimedOut,
        }
    }
}

/// A handshake in progress: how many lines it has read without a verdict.
#[derive(Debug)]
pub struct Handshake {
    lines_read: u32,
}

/// Where a handshake stands after an input.
#[derive(Debug)]
pub enum HandshakeStep {
    /// No verdict yet: read another line and hand it to the handshake given.
    Waiting(Handshake),
    /// The worker is ready.
    Ready,
    /// The worker will not become ready.
    Failed(HandshakeFault),
}

pub enum HandshakeStepView {
    /// Still waiting, after this many lines.
    Waiting(nat),
    Ready,
    Failed(HandshakeFaultView),
}

impl View for Handshake {
    type V = nat;

    closed spec fn view(&self) -> nat {
        self.lines_read as nat
    }
}

impl View for HandshakeStep {
    type V = HandshakeStepView;

    open spec fn view(&self) -> HandshakeStepView {
        match self {
            HandshakeStep::Waiting(handshake) => HandshakeStepView::Waiting(handshake@),
            HandshakeStep::Ready => HandshakeStepView::Ready,
            HandshakeStep::Failed(failure) => HandshakeStepView::Failed(failure@),
        }
    }
}

/// Whether a line reports readiness: trimmed, it is a JSON object that holds
/// `ready: true` and no `error` text.
pub open spec fn reports_ready(input: LineInputView) -> bool {
    match input {
        LineInputView::Line(line) => decoded_startup(trimmed(line)) == Ok::<
            Option<ProtocolMessageView>,
            Seq<char>,
        >(Some(ProtocolMessageView::Ready)),
        _ => false,
    }
}

/// Where a handshake that has read `lines_read` lines stands after `input`.
///
/// A line is trimmed and decoded as a startup line. Readiness and a reported
/// error end the handshake; every other line, JSON or not, only counts
/// against the limit.
pub open spec fn handshake_step(lines_read: nat, input: LineInputView) -> HandshakeStepView {
    match input {
        LineInputView::Closed => HandshakeStepView::Failed(HandshakeFaultView::Closed),
        LineInputView::Failed(reason) => HandshakeStepView::Failed(
            HandshakeFaultView::ReadFailed { reason },
        ),
        LineInputView::Line(line) => match decoded_startup(trimmed(line)) {
            Ok(Some(ProtocolMessageView::Ready)) => HandshakeStepView::Ready,
            Ok(Some(ProtocolMessageView::Error { message })) => HandshakeStepView::Failed(
                HandshakeFaultView::Reported { message },
            ),
            _ => if lines_read + 1 >= HANDSHAKE_LINE_LIMIT {
                HandshakeStepView::Failed(HandshakeFaultView::TimedOut)
            } else {
                HandshakeStepView::Waiting(lines_read + 1)
            },
        },
    }
}

/// Where a handshake that has read `lines_read` lines stands after all of
/// `inputs`, taken in order; inputs behind a verdict are not looked at.
pub open spec fn handshake_after(lines_read: nat, inputs: Seq<LineInputView>) -> HandshakeStepView
    decreases inputs.len(),
{
    if inputs.len() == 0 {
        HandshakeStepView::Waiting(lines_read)
    } else {
        match handshake_step(lines_read, inputs[0]) {
            HandshakeStepView::Waiting(next) => handshake_after(next, inputs.drop_first()),
            verdict => verdict,
        }
    }
}

/// What a failure reads like in a log or an error message.
pub open spec fn handshake_failure_message(failure: HandshakeFaultView) -> Seq<char> {
    match failure {
        HandshakeFaultView::Closed => "Worker stdout closed before ready."@,
        HandshakeFaultView::ReadFailed { reason } => "Failed to read from worker: "@ + reason,
        HandshakeFaultView::Reported { message } => "Worker reported error: "@ + message,
        HandshakeFaultView::TimedOut => "Worker did not send ready in time."@,
    }
}

impl HandshakeFault {
    /// What the failure reads like in a log or an error message.
    pub fn message(&self) -> (text: String)
        ensures
            text@ == handshake_failure_message(self@),
    {
        match self {
            HandshakeFault::Closed => String::from_str("Worker stdout closed before ready."),
            HandshakeFault::ReadFailed { reason } => {
                let mut text = String::from_str("Failed to read from worker: ");
                text.append(reason.as_str());
                text
            },
            HandshakeFault::Reported { message } => {
                let mut text = String::from_str("Worker reported error: ");
                text.append(message.as_str());
                text
            },
            HandshakeFault::TimedOut => String::from_str("Worker did not send ready in time."),
        }
    }
}

impl Handshake {
    #[verifier::type_invariant]
    spec fn within_limit(self) -> bool {
        self.lines_read < HANDSHAKE_LINE_LIMIT
    }

    /// A handshake that has read nothing yet.
    pub fn new() -> (handshake: Handshake)
        ensures
            handshake@ == 0,
    {
        Handshake { lines_read: 0 }
    }

    /// How many lines were read without a verdict.
    pub fn lines_read(&self) -> (count: u32)
        ensures
            count == self@,
            count < HANDSHAKE_LINE_LIMIT,
    {
        proof {
            use_type_invariant(self);
        }
        self.lines_read
    }

    /// Takes what reading the next line gave.
    pub fn advance(self, input: &LineInput) -> (step: HandshakeStep)
        ensures
            step@ == handshake_step(self@, input@),
    {
        proof {
            use_type_invariant(&self);
        }
        match input {
            LineInput::Closed => HandshakeStep::Failed(HandshakeFault::Closed),
            LineInput::Failed(reason) => HandshakeStep::Failed(
                HandshakeFault::ReadFailed { reason: reason.clone() },
            ),
            LineInput::Line(line) => {
                match decode_startup(trim(line.as_str())) {
                    Ok(Some(ProtocolMessage::Ready)) => HandshakeStep::Ready,
                    Ok(Some(ProtocolMessage::Error { message })) => HandshakeStep::Failed(
                        HandshakeFault::Reported { message },
                    ),
                    _ => {
                        if self.lines_read + 1 >= HANDSHAKE_LINE_LIMIT {
                            HandshakeStep::Failed(HandshakeFault::TimedOut)
                        } else {
                            HandshakeStep::Waiting(Handshake { lines_read: self.lines_read + 1 })
                        }
                    },
                }
            },
        }
    }

    /// Takes everything a worker wrote, in order, and stops at the verdict.
    #[verifier::loop_isolation(false)]
    pub fn run(self, inputs: &Vec<LineInput>) -> (step: HandshakeStep)
        ensures
            step@ == handshake_after(self@, inputs_view(inputs@)),
    {
        let ghost all = inputs_view(inputs@);
        let ghost start = self@;
        let mut handshake = self;
        let mut i: usize = 0;
        assert(all.skip(0) =~= all);
        while i < inputs.len()
            invariant
                i <= inputs.len(),
                all == inputs_view(inputs@),
                handshake_after(start, all) == handshake_after(handshake@, all.skip(i as int)),
            decreases inputs.len() - i,
        {
            assert(all.skip(i as int)[0] == inputs[i as int]@);
            assert(all.skip(i as int).drop_first() =~= all.skip(i + 1));
            match handshake.advance(&inputs[i]) {
                HandshakeStep::Waiting(next) => {
                    handshake = next;
                },
                verdict => {
                    return verdict;
                },
            }
            i += 1;
        }
        HandshakeStep::Waiting(handshake)
    }
}

/// A handshake ends in readiness only on a line that reports readiness, and
/// that line is among the first `HANDSHAKE_LINE_LIMIT`.
pub proof fn lemma_ready_needs_ready_line(lines_read: nat, inputs: Seq<LineInputView>)
    requires
        lines_read < HANDSHAKE_LINE_LIMIT,
        handshake_after(lines_read, inputs) == HandshakeStepView::Ready,
    ensures
        exists|i: int|
            0 <= i < inputs.len() && lines_read + i < HANDSHAKE_LINE_LIMIT && reports_ready(
                #[trigger] inputs[i],
            ),
    decreases inputs.len(),
{
    match handshake_step(lines_read, inputs[0]) {
        HandshakeStepView::Waiting(next) => {
            let rest = inputs.drop_first();
            lemma_ready_needs_ready_line(next, rest);
            let i = choose|i: int|
                0 <= i < rest.len() && next + i < HANDSHAKE_LINE_LIMIT && reports_ready(
                    #[trigger] rest[i],
                );
            assert(rest[i] == inputs[i + 1]);
            assert(reports_ready(inputs[i + 1]));
        },
        _ => {
            assert(reports_ready(inputs[0]));
        },
    }
}

/// A worker that writes `HANDSHAKE_LINE_LIMIT` lines or more, none of the
/// first `HANDSHAKE_LINE_LIMIT` reporting readiness, has failed its handshake.
pub proof fn lemma_no_ready_line_fails(lines_read: nat, inputs: Seq<LineInputView>)
    requires
        lines_read < HANDSHAKE_LINE_LIMIT,
        lines_read + inputs.len() >= HANDSHAKE_LINE_LIMIT,
        forall|i: int|
            0 <= i < inputs.len() && lines_read + i < HANDSHAKE_LINE_LIMIT ==> !reports_ready(
                #[trigger] inputs[i],
            ),
    ensures
        handshake_after(lines_read, inputs) is Failed,
    decreases inputs.len(),
{
    assert(!reports_ready(inputs[0]));
    match handshake_step(lines_read, inputs[0]) {
        HandshakeStepView::Waiting(next) => {
            let rest = inputs.drop_first();
            assert forall|i: int|
                0 <= i < rest.len() && next + i < HANDSHAKE_LINE_LIMIT implies !reports_ready(
                #[trigger] rest[i],
            ) by {
                assert(rest[i] == inputs[i + 1]);
            }
            lemma_no_ready_line_fails(next, rest);
        },
        _ => {},
    }
}

} // verus!
