//! One streamed answer, line by line.
//!
//! The caller reads a line from the process that answers, hands it to `react`,
//! emits the event it gets back at once, and reads on until the reaction ends
//! the stream. Chunks therefore reach the sink in the order in which the
//! worker wrote them, each before the next line is read.

use crate::protocol::{decode, decoded, inputs_view, LineInput, LineInputView, ProtocolMessage,
    ProtocolMessageView};
use vstd::prelude::*;

verus! {

/// What the consumer of a stream is told. Every event names its stream.
#[derive(Debug, Clone, PartialEq, Eq)]
pub enum StreamEvent {
    /// The next piece of the answer.
    Chunk { stream_id: String, text: String },
    /// The answer is complete; `full` is all of it.
    Done { stream_id: String, full: String },
    /// The request failed.
    Error { stream_id: String, error: String },
}

pub enum StreamEventView {
    Chunk { stream_id: Seq<char>, text: Seq<char> },
    Done { stream_id: Seq<char>, full: Seq<char> },
    Error { stream_id: Seq<char>, error: Seq<char> },
}

impl View for StreamEvent {
    type V = StreamEventView;

    open spec fn view(&self) -> StreamEventView {
        match self {
            StreamEvent::Chunk { stream_id, text } => StreamEventView::Chunk {
                stream_id: stream_id@,
                text: text@,
            },
            StreamEvent::Done { stream_id, full } => StreamEventView::Done {
                stream_id: stream_id@,
                full: full@,
            },
            StreamEvent::Error { stream_id, error } => StreamEventView::Error {
                stream_id: stream_id@,
                error: error@,
            },
        }
    }
}

impl StreamEventView {
    /// A done or an error event: it ends its stream.
    pub open spec fn is_terminal(self) -> bool {
        !(self is Chunk)
    }

    pub open spec fn stream_id(self) -> Seq<char> {
        match self {
            StreamEventView::Chunk { stream_id, .. } => stream_id,
            StreamEventView::Done { stream_id, .. } => stream_id,
            StreamEventView::Error { stream_id, .. } => stream_id,
        }
    }

    /// The name under which the event is published.
    pub open spec fn channel(self) -> Seq<char> {
        match self {
            StreamEventView::Chunk { .. } => "llm-stream-chunk"@,
            StreamEventView::Done { .. } => "llm-stream-done"@,
            StreamEventView::Error { .. } => "llm-stream-error"@,
        }
    }
}

pub open spec fn events_view(events: Seq<StreamEvent>) -> Seq<StreamEventView> {
    events.map_values(|event: StreamEvent| event@)
}

impl StreamEvent {
    /// Whether the event ends its stream.
    pub fn is_terminal(&self) -> (terminal: bool)
        ensures
            terminal == self@.is_terminal(),
    {
        match self {
            StreamEvent::Chunk { .. } => false,
            _ => true,
        }
    }

    /// The stream the event belongs to.
    pub fn stream_id(&self) -> (id: &str)
        ensures
            id@ == self@.stream_id(),
    {
        match self {
            StreamEvent::Chunk { stream_id, .. } => stream_id.as_str(),
            StreamEvent::Done { stream_id, .. } => stream_id.as_str(),
            StreamEvent::Error { stream_id, .. } => stream_id.as_str(),
        }
    }

    /// The name under which the event is published.
    pub fn channel(&self) -> (name: &'static str)
        ensures
            name@ == self@.channel(),
    {
        match self {
            StreamEvent::Chunk { .. } => "llm-stream-chunk",
            StreamEvent::Done { .. } => "llm-stream-done",
            StreamEvent::Error { .. } => "llm-stream-error",
        }
    }
}

/// Why a stream broke off before the process answered with done or error.
#[derive(Debug, Clone, PartialEq, Eq)]
pub enum StreamFault {
    /// The output closed before any done or error line: the stream ended
    /// without a response.
    EndedWithoutResponse,
    /// Reading the output failed.
    ReadFailed { reason: String },
    /// A line was not JSON.
    Malformed { reason: String },
    /// The request could not be encoded or written.
    NotSent { reason: String },
}

pub enum StreamFaultView {
    EndedWithoutResponse,
    ReadFailed { reason: Seq<char> },
    Malformed { reason: Seq<char> },
    NotSent { reason: Seq<char> },
}

impl View for StreamFault {
    type V = StreamFaultView;

    open spec fn view(&self) -> StreamFaultView {
        match self {
            StreamFault::EndedWithoutResponse => StreamFaultView::EndedWithoutResponse,
            StreamFault::ReadFailed { reason } => StreamFaultView::ReadFailed {
                reason: reason@,
            },
            StreamFault::Malformed { reason } => StreamFaultView::Malformed { reason: reason@ },
            StreamFault::NotSent { reason } => StreamFaultView::NotSent { reason: reason@ },
        }
    }
}

/// What a failure of the exchange with a worker reads like in a log.
pub open spec fn stream_failure_message(failure: StreamFaultView) -> Seq<char> {
    match failure {
        StreamFaultView::EndedWithoutResponse => "Worker stream ended without done."@,
        StreamFaultView::ReadFailed { reason } => "Read from worker: "@ + reason,
        StreamFaultView::Malformed { reason } => "Worker JSON: "@ + reason,
        StreamFaultView::NotSent { reason } => reason,
    }
}

impl StreamFault {
    /// What the failure reads like in a log.
    pub fn message(&self) -> (text: String)
        ensures
            text@ == stream_failure_message(self@),
    {
        match self {
            StreamFault::EndedWithoutResponse => String::from_str(
                "Worker stream ended without done.",
            ),
            StreamFault::ReadFailed { reason } => {
                let mut text = String::from_str("Read from worker: ");
                text.append(reason.as_str());
                text
            },
            StreamFault::Malformed { reason } => {
                let mut text = String::from_str("Worker JSON: ");
                text.append(reason.as_str());
                text
            },
            StreamFault::NotSent { reason } => reason.clone(),
        }
    }
}

/// What to do about one input of a stream.
#[derive(Debug, Clone, PartialEq, Eq)]
pub enum Reaction {
    /// Noise. Emit nothing and read on.
    Skip,
    /// Emit this chunk and read on.
    Forward(StreamEvent),
    /// Emit this done event. The answer is complete and the process can take
    /// another request.
    Complete(StreamEvent),
    /// Emit this error event. The process gave up on the request.
    Abort(StreamEvent),
    /// Emit nothing. The stream is broken.
    Broken(StreamFault),
}

pub enum ReactionView {
    Skip,
    Forward(StreamEventView),
    Complete(StreamEventView),
    Abort(StreamEventView),
    Broken(StreamFaultView),
}

impl View for Reaction {
    type V = ReactionView;

    open spec fn view(&self) -> ReactionView {
        match self {
            Reaction::Skip => ReactionView::Skip,
            Reaction::Forward(event) => ReactionView::Forward(event@),
            Reaction::Complete(event) => ReactionView::Complete(event@),
            Reaction::Abort(event) => ReactionView::Abort(event@),
            Reaction::Broken(failure) => ReactionView::Broken(failure@),
        }
    }
}

/// The reaction to one input of the stream `stream_id`.
///
/// A line is decoded as it stands. A chunk is forwarded, done completes the
/// stream, an error aborts it with the worker's message passed on verbatim.
/// JSON that is no message of a running request is skipped. A line that is
/// not JSON, a failed read and the end of the output break the stream.
pub open spec fn reaction(stream_id: Seq<char>, input: LineInputView) -> ReactionView {
    match input {
        LineInputView::Closed => ReactionView::Broken(StreamFaultView::EndedWithoutResponse),
        LineInputView::Failed(reason) => ReactionView::Broken(
            StreamFaultView::ReadFailed { reason },
        ),
        LineInputView::Line(line) => match decoded(line) {
            Err(reason) => ReactionView::Broken(StreamFaultView::Malformed { reason }),
            Ok(Some(ProtocolMessageView::Chunk { text })) => ReactionView::Forward(
                StreamEventView::Chunk { stream_id, text },
            ),
            Ok(Some(ProtocolMessageView::Done { full_text })) => ReactionView::Complete(
                StreamEventView::Done { stream_id, full: full_text },
            ),
            Ok(Some(ProtocolMessageView::Error { message })) => ReactionView::Abort(
                StreamEventView::Error { stream_id, error: message },
            ),
            Ok(Some(ProtocolMessageView::Ready)) => ReactionView::Skip,
            Ok(None) => ReactionView::Skip,
        },
    }
}

/// The reaction to one input of the stream `stream_id`.
pub fn react(stream_id: &str, input: &LineInput) -> (r: Reaction)
    ensures
        r@ == reaction(stream_id@, input@),
{
    match input {
        LineInput::Closed => Reaction::Broken(StreamFault::EndedWithoutResponse),
        LineInput::Failed(reason) => Reaction::Broken(
            StreamFault::ReadFailed { reason: reason.clone() },
        ),
        LineInput::Line(line) => match decode(line.as_str()) {
            Err(reason) => Reaction::Broken(StreamFault::Malformed { reason }),
            Ok(Some(ProtocolMessage::Chunk { text })) => Reaction::Forward(
                StreamEvent::Chunk { stream_id: stream_id.to_owned(), text },
            ),
            Ok(Some(ProtocolMessage::Done { full_text })) => Reaction::Complete(
                StreamEvent::Done { stream_id: stream_id.to_owned(), full: full_text },
            ),
            Ok(Some(ProtocolMessage::Error { message })) => Reaction::Abort(
                StreamEvent::Error { stream_id: stream_id.to_owned(), error: message },
            ),
            Ok(Some(ProtocolMessage::Ready)) => Reaction::Skip,
            Ok(None) => Reaction::Skip,
        },
    }
}

/// How a stream ended.
#[derive(Debug, Clone, PartialEq, Eq)]
pub enum Ending {
    /// With a done event.
    Completed,
    /// With an error event that passed on the worker's own message.
    Aborted,
    /// Without any terminal event.
    Broken(StreamFault),
}

pub enum EndingView {
    Completed,
    Aborted,
    Broken(StreamFaultView),
}

impl View for Ending {
    type V = EndingView;

    open spec fn view(&self) -> EndingView {
        match self {
            Ending::Completed => EndingView::Completed,
            Ending::Aborted => EndingView::Aborted,
            Ending::Broken(failure) => EndingView::Broken(failure@),
        }
    }
}

/// The events of a stream, in the order of their emission, and its ending.
#[derive(Debug, Clone, PartialEq, Eq)]
pub struct Transcript {
    pub events: Vec<StreamEvent>,
    pub ending: Ending,
}

pub struct TranscriptView {
    pub events: Seq<StreamEventView>,
    pub ending: EndingView,
}

impl View for Transcript {
    type V = TranscriptView;

    open spec fn view(&self) -> TranscriptView {
        TranscriptView { events: events_view(self.events@), ending: self.ending@ }
    }
}

/// The transcript of the stream `stream_id` over everything the process
/// wrote: the reactions to `inputs`, in order, up to the first that ends the
/// stream. Running out of inputs is the end of the output.
pub open spec fn transcript(stream_id: Seq<char>, inputs: Seq<LineInputView>) -> TranscriptView
    decreases inputs.len(),
{
    if inputs.len() == 0 {
        TranscriptView {
            events: Seq::empty(),
            ending: EndingView::Broken(StreamFaultView::EndedWithoutResponse),
        }
    } else {
        let rest = transcript(stream_id, inputs.drop_first());
        match reaction(stream_id, inputs[0]) {
            ReactionView::Skip => rest,
            ReactionView::Forward(event) => TranscriptView {
                events: seq![event] + rest.events,
                ending: rest.ending,
            },
            ReactionView::Complete(event) => TranscriptView {
                events: seq![event],
                ending: EndingView::Completed,
            },
            ReactionView::Abort(event) => TranscriptView {
                events: seq![event],
                ending: EndingView::Aborted,
            },
            ReactionView::Broken(failure) => TranscriptView {
                events: Seq::empty(),
                ending: EndingView::Broken(failure),
            },
        }
    }
}

/// For each event of `transcript(stream_id, inputs)`, the index of the input
/// that it reacts to.
pub open spec fn sources(stream_id: Seq<char>, inputs: Seq<LineInputView>) -> Seq<int>
    decreases inputs.len(),
{
    if inputs.len() == 0 {
        Seq::empty()
    } else {
        let rest = sources(stream_id, inputs.drop_first()).map_values(|i: int| i + 1);
        match reaction(stream_id, inputs[0]) {
            ReactionView::Skip => rest,
            ReactionView::Forward(_) => seq![0int] + rest,
            ReactionView::Complete(_) => seq![0int],
            ReactionView::Abort(_) => seq![0int],
            ReactionView::Broken(_) => Seq::empty(),
        }
    }
}

/// The event that a reaction asks to emit.
pub open spec fn emitted(r: ReactionView) -> Option<StreamEventView> {
    match r {
        ReactionView::Forward(event) => Some(event),
        ReactionView::Complete(event) => Some(event),
        ReactionView::Abort(event) => Some(event),
        _ => None,
    }
}

/// Replays everything a process wrote for the stream `stream_id`.
pub fn replay(stream_id: &str, inputs: &Vec<LineInput>) -> (t: Transcript)
    ensures
        t@ == transcript(stream_id@, inputs_view(inputs@)),
{
    let ghost all = inputs_view(inputs@);
    let mut events: Vec<StreamEvent> = Vec::new();
    let mut i: usize = 0;
    assert(all.skip(0) =~= all);
    assert(events_view(events@) + transcript(stream_id@, all).events =~= transcript(
        stream_id@,
        all,
    ).events);
    while i < inputs.len()
        invariant
            i <= inputs.len(),
            all == inputs_view(inputs@),
            transcript(stream_id@, all).events == events_view(events@) + transcript(
                stream_id@,
                all.skip(i as int),
            ).events,
            transcript(stream_id@, all).ending == transcript(stream_id@, all.skip(i as int)).ending,
        decreases inputs.len() - i,
    {
        let ghost before = events_view(events@);
        let ghost tail = all.skip(i as int);
        assert(tail[0] == inputs[i as int]@);
        assert(tail.drop_first() =~= all.skip(i + 1));
        match react(stream_id, &inputs[i]) {
            Reaction::Skip => {},
            Reaction::Forward(event) => {
                events.push(event);
                assert(events_view(events@) =~= before.push(event@));
                assert(before + (seq![event@] + transcript(stream_id@, all.skip(i + 1)).events)
                    =~= before.push(event@) + transcript(stream_id@, all.skip(i + 1)).events);
            },
            Reaction::Complete(event) => {
                events.push(event);
                assert(events_view(events@) =~= before + seq![event@]);
                return Transcript { events, ending: Ending::Completed };
            },
            Reaction::Abort(event) => {
                events.push(event);
                assert(events_view(events@) =~= before + seq![event@]);
                return Transcript { events, ending: Ending::Aborted };
            },
            Reaction::Broken(failure) => {
                assert(events_view(events@) =~= before + Seq::<StreamEventView>::empty());
                return Transcript { events, ending: Ending::Broken(failure) };
            },
        }
        i += 1;
    }
    assert(events_view(events@) =~= events_view(events@) + Seq::<StreamEventView>::empty());
    Transcript { events, ending: Ending::Broken(StreamFault::EndedWithoutResponse) }
}

/// The shape of every transcript: chunks, then at most one terminal event.
///
/// Every event carries the stream's identifier. Every event but the last is a
/// chunk. A completed stream ends in its done event and an aborted one in its
/// error event; a broken stream holds chunks only.
pub proof fn lemma_transcript_shape(stream_id: Seq<char>, inputs: Seq<LineInputView>)
    ensures
        ({
            let t = transcript(stream_id, inputs);
            &&& forall|i: int| 0 <= i < t.events.len() ==> (#[trigger] t.events[i]).stream_id()
                == stream_id
            &&& forall|i: int| 0 <= i < t.events.len() - 1 ==> (#[trigger] t.events[i]) is Chunk
            &&& t.ending is Completed ==> t.events.len() > 0 && t.events.last() is Done
            &&& t.ending is Aborted ==> t.events.len() > 0 && t.events.last() is Error
            &&& t.ending is Broken ==> forall|i: int|
                0 <= i < t.events.len() ==> (#[trigger] t.events[i]) is Chunk
        }),
    decreases inputs.len(),
{
    if inputs.len() > 0 {
        lemma_transcript_shape(stream_id, inputs.drop_first());
        let rest = transcript(stream_id, inputs.drop_first());
        let t = transcript(stream_id, inputs);
        match reaction(stream_id, inputs[0]) {
            ReactionView::Forward(event) => {
                assert forall|i: int| 0 <= i < t.events.len() implies (#[trigger] t.events[i])
                    .stream_id() == stream_id by {
                    if i > 0 {
                        assert(t.events[i] == rest.events[i - 1]);
                    }
                }
                assert forall|i: int| 0 <= i < t.events.len() - 1 implies (
                #[trigger] t.events[i]) is Chunk by {
                    if i > 0 {
                        assert(t.events[i] == rest.events[i - 1]);
                    }
                }
                if t.ending is Broken {
                    assert forall|i: int| 0 <= i < t.events.len() implies (
                    #[trigger] t.events[i]) is Chunk by {
                        if i > 0 {
                            assert(t.events[i] == rest.events[i - 1]);
                        }
                    }
                }
                if rest.events.len() > 0 {
                    assert(t.events.last() == rest.events.last());
                }
            },
            _ => {},
        }
    }
}

/// Events keep the order of the lines they come from: every event is the one
/// that the reaction to its source line asks for, and the source lines of
/// successive events come one after the other in the output.
pub proof fn lemma_events_in_emission_order(stream_id: Seq<char>, inputs: Seq<LineInputView>)
    ensures
        ({
            let t = transcript(stream_id, inputs);
            let from = sources(stream_id, inputs);
            &&& from.len() == t.events.len()
            &&& forall|i: int|
                0 <= i < from.len() ==> 0 <= #[trigger] from[i] < inputs.len() && emitted(
                    reaction(stream_id, inputs[from[i]]),
                ) == Some(t.events[i])
            &&& forall|i: int, j: int| 0 <= i < j < from.len() ==> from[i] < from[j]
        }),
    decreases inputs.len(),
{
    if inputs.len() > 0 {
        let tail = inputs.drop_first();
        lemma_events_in_emission_order(stream_id, tail);
        let rest_t = transcript(stream_id, tail);
        let rest_from = sources(stream_id, tail);
        let shifted = rest_from.map_values(|i: int| i + 1);
        let t = transcript(stream_id, inputs);
        let from = sources(stream_id, inputs);
        assert forall|i: int| 0 <= i < shifted.len() implies 0 < #[trigger] shifted[i]
            < inputs.len() && emitted(reaction(stream_id, inputs[shifted[i]])) == Some(
            rest_t.events[i],
        ) by {
            assert(shifted[i] == rest_from[i] + 1);
            assert(inputs[shifted[i]] == tail[rest_from[i]]);
        }
        assert forall|i: int, j: int| 0 <= i < j < shifted.len() implies shifted[i]
            < shifted[j] by {
            assert(rest_from[i] < rest_from[j]);
        }
        match reaction(stream_id, inputs[0]) {
            ReactionView::Forward(event) => {
                assert forall|i: int| 0 <= i < from.len() implies 0 <= #[trigger] from[i]
                    < inputs.len() && emitted(reaction(stream_id, inputs[from[i]])) == Some(
                    t.events[i],
                ) by {
                    if i > 0 {
                        assert(from[i] == shifted[i - 1]);
                        assert(t.events[i] == rest_t.events[i - 1]);
                    }
                }
                assert forall|i: int, j: int| 0 <= i < j < from.len() implies from[i]
                    < from[j] by {
                    assert(from[j] == shifted[j - 1]);
                    if i > 0 {
                        assert(from[i] == shifted[i - 1]);
                    }
                }
            },
            _ => {},
        }
    }
}

} // verus!
