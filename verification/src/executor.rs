//! The streaming executor: one request, routed through the stored worker or
//! through the one-shot fallback.
//!
//! A request first tries to check the worker out of the supervisor. A worker
//! with the requested model serves it. If the worker answers with done it is
//! put back; if it reports an error the request ends there and the worker is
//! discarded; if the exchange breaks without a terminal event the worker is
//! discarded and the fallback takes over. Without a matching worker the
//! fallback serves the request, and a stored worker with another model stays
//! in its slot untouched.
//!
//! Whatever happens, the consumer sees chunks followed by exactly one
//! terminal event.

use crate::fallback::{fallback_events, lemma_fallback_ends_with_one_terminal, replay_fallback,
    FallbackRun, FallbackRunView};
use crate::lifecycle::{state_after_request, WorkerState};
use crate::protocol::{encode, encoded, inputs_view, LineInput, LineInputView, StreamRequest};
use crate::stream::{emitted, events_view, lemma_events_in_emission_order, lemma_transcript_shape,
    reaction, replay, sources, transcript, Ending, EndingView, StreamEvent, StreamEventView,
    StreamFault, StreamFaultView, Transcript, TranscriptView};
use crate::supervisor::{Supervisor, WorkerHandle};
use vstd::prelude::*;

verus! {

/// What became of a worker after it served a request.
#[derive(Debug)]
pub enum Settlement<P> {
    /// It answered with done and is stored again. A worker that was stored
    /// in the meantime is handed out to be shut down.
    Returned { displaced: Option<WorkerHandle<P>> },
    /// It failed and must not be used again: it is handed out to be shut
    /// down, and the slot is not touched.
    Discarded { handle: WorkerHandle<P> },
}

/// Whether the fallback is due after the worker path ended as `ending`: only
/// when no terminal event has been emitted.
pub open spec fn needs_fallback(ending: EndingView) -> bool {
    ending is Broken
}

/// Whether the fallback is due after the worker path ended as `ending`.
pub fn fallback_is_due(ending: &Ending) -> (due: bool)
    ensures
        due == needs_fallback(ending@),
{
    match ending {
        Ending::Broken(_) => true,
        _ => false,
    }
}

/// Settles a worker after it served a request that ended as `ending`: back
/// into the slot after a clean done, out of service after anything else.
pub fn settle<P>(supervisor: &mut Supervisor<P>, handle: WorkerHandle<P>, ending: &Ending) -> (s:
    Settlement<P>)
    ensures
        s is Returned <==> state_after_request(ending@) == WorkerState::Ready,
        match s {
            Settlement::Returned { displaced } => {
                &&& ending@ is Completed
                &&& displaced == old(supervisor).stored()
                &&& final(supervisor).stored() == Some(handle)
            },
            Settlement::Discarded { handle: discarded } => {
                &&& !(ending@ is Completed)
                &&& discarded == handle
                &&& final(supervisor).stored() == old(supervisor).stored()
            },
        },
{
    match ending {
        Ending::Completed => Settlement::Returned { displaced: supervisor.release(handle) },
        _ => Settlement::Discarded { handle },
    }
}

/// The line to write to the worker for `request`, or why there is none.
pub open spec fn request_to_send(request: StreamRequest) -> Result<Seq<char>, StreamFaultView> {
    match encoded(request) {
        Ok(line) => Ok(line),
        Err(reason) => Err(StreamFaultView::NotSent { reason: "Serialize request: "@ + reason }),
    }
}

/// The line to write to the worker for `request`.
pub fn prepare_request(request: &StreamRequest) -> (line: Result<String, StreamFault>)
    ensures
        match line {
            Ok(text) => request_to_send(*request) == Ok::<Seq<char>, StreamFaultView>(text@),
            Err(failure) => request_to_send(*request) == Err::<Seq<char>, StreamFaultView>(
                failure@,
            ),
        },
{
    match encode(request) {
        Ok(text) => Ok(text),
        Err(reason) => {
            let mut message = String::from_str("Serialize request: ");
            message.append(reason.as_str());
            Err(StreamFault::NotSent { reason: message })
        },
    }
}

/// Everything a worker did with one request, for replaying it.
#[derive(Debug, Clone, PartialEq, Eq)]
pub struct WorkerRun {
    /// Set when the request line could not be written or flushed.
    pub write_failure: Option<String>,
    /// What reading the worker's output gave, line by line.
    pub lines: Vec<LineInput>,
}

pub struct WorkerRunView {
    pub write_failure: Option<Seq<char>>,
    pub lines: Seq<LineInputView>,
}

impl View for WorkerRun {
    type V = WorkerRunView;

    open spec fn view(&self) -> WorkerRunView {
        WorkerRunView {
            write_failure: match self.write_failure {
                Some(reason) => Some(reason@),
                None => None,
            },
            lines: inputs_view(self.lines@),
        }
    }
}

/// The transcript of the worker path: nothing but a broken ending when the
/// request never reached the worker, else the transcript of its output.
pub open spec fn worker_transcript(request: StreamRequest, run: WorkerRunView) -> TranscriptView {
    match request_to_send(request) {
        Err(failure) => TranscriptView { events: Seq::empty(), ending: EndingView::Broken(failure) },
        Ok(_) => match run.write_failure {
            Some(reason) => TranscriptView {
                events: Seq::empty(),
                ending: EndingView::Broken(StreamFaultView::NotSent { reason }),
            },
            None => transcript(request.stream_id@, run.lines),
        },
    }
}

/// Which path served a request.
#[derive(Debug, Clone, Copy, PartialEq, Eq)]
pub enum Route {
    /// The worker, to the end.
    Worker,
    /// The worker until it broke, then the fallback.
    WorkerThenFallback,
    /// The fallback alone.
    Fallback,
}

/// What a request came to.
#[derive(Debug)]
pub struct StreamReport<P> {
    /// The events, in the order of their emission.
    pub events: Vec<StreamEvent>,
    pub route: Route,
    /// How the worker path ended, when it was taken.
    pub worker_ending: Option<Ending>,
    /// The worker that failed and was taken out of service.
    pub discarded: Option<WorkerHandle<P>>,
}

pub struct StreamReportView<P> {
    pub events: Seq<StreamEventView>,
    pub route: Route,
    pub worker_ending: Option<EndingView>,
    pub discarded: Option<WorkerHandle<P>>,
    /// What the slot holds afterwards.
    pub stored: Option<WorkerHandle<P>>,
}

/// What the request `request` for the model `model` comes to when the slot
/// holds `stored`, the worker would behave as `worker` and the fallback as
/// `fallback`.
pub open spec fn stream_run<P>(
    stored: Option<WorkerHandle<P>>,
    request: StreamRequest,
    model: Seq<char>,
    worker: WorkerRunView,
    fallback: FallbackRunView,
) -> StreamReportView<P> {
    match stored {
        Some(handle) if handle.serves(model) => {
            let t = worker_transcript(request, worker);
            match t.ending {
                EndingView::Completed => StreamReportView {
                    events: t.events,
                    route: Route::Worker,
                    worker_ending: Some(t.ending),
                    discarded: None,
                    stored: Some(handle),
                },
                EndingView::Aborted => StreamReportView {
                    events: t.events,
                    route: Route::Worker,
                    worker_ending: Some(t.ending),
                    discarded: Some(handle),
                    stored: None,
                },
                EndingView::Broken(_) => StreamReportView {
                    events: t.events + fallback_events(request.stream_id@, fallback),
                    route: Route::WorkerThenFallback,
                    worker_ending: Some(t.ending),
                    discarded: Some(handle),
                    stored: None,
                },
            }
        },
        _ => StreamReportView {
            events: fallback_events(request.stream_id@, fallback),
            route: Route::Fallback,
            worker_ending: None,
            discarded: None,
            stored,
        },
    }
}

/// The view of a report together with what the slot holds afterwards.
pub open spec fn report_view<P>(report: StreamReport<P>, stored: Option<WorkerHandle<P>>)
    -> StreamReportView<P> {
    StreamReportView {
        events: events_view(report.events@),
        route: report.route,
        worker_ending: match report.worker_ending {
            Some(ending) => Some(ending@),
            None => None,
        },
        discarded: report.discarded,
        stored,
    }
}

/// Replays the worker path of a request.
pub fn replay_worker(request: &StreamRequest, run: &WorkerRun) -> (t: Transcript)
    ensures
        t@ == worker_transcript(*request, run@),
{
    match prepare_request(request) {
        Err(failure) => {
            let events: Vec<StreamEvent> = Vec::new();
            assert(events_view(events@) =~= Seq::<StreamEventView>::empty());
            Transcript { events, ending: Ending::Broken(failure) }
        },
        Ok(_) => match &run.write_failure {
            Some(reason) => {
                let events: Vec<StreamEvent> = Vec::new();
                assert(events_view(events@) =~= Seq::<StreamEventView>::empty());
                Transcript {
                    events,
                    ending: Ending::Broken(StreamFault::NotSent { reason: reason.clone() }),
                }
            },
            None => replay(request.stream_id.as_str(), &run.lines),
        },
    }
}

/// Runs one request against recorded behaviour of the worker and of the
/// fallback: what the consumer would see, and what becomes of the worker.
pub fn run_stream<P>(
    supervisor: &mut Supervisor<P>,
    request: &StreamRequest,
    model_path: &str,
    worker: &WorkerRun,
    fallback: &FallbackRun,
) -> (report: StreamReport<P>)
    ensures
        report_view(report, final(supervisor).stored()) == stream_run(
            old(supervisor).stored(),
            *request,
            model_path@,
            worker@,
            fallback@,
        ),
{
    match supervisor.checkout(model_path) {
        Some(handle) => {
            let t = replay_worker(request, worker);
            let due = fallback_is_due(&t.ending);
            let discarded = match settle(supervisor, handle, &t.ending) {
                Settlement::Returned { displaced } => None,
                Settlement::Discarded { handle } => Some(handle),
            };
            let mut events = t.events;
            let mut route = Route::Worker;
            if due {
                let ghost before = events_view(events@);
                let mut more = replay_fallback(request.stream_id.as_str(), fallback);
                let ghost added = events_view(more@);
                events.append(&mut more);
                assert(events_view(events@) =~= before + added);
                route = Route::WorkerThenFallback;
            }
            StreamReport { events, route, worker_ending: Some(t.ending), discarded }
        },
        None => StreamReport {
            events: replay_fallback(request.stream_id.as_str(), fallback),
            route: Route::Fallback,
            worker_ending: None,
            discarded: None,
        },
    }
}

/// How many terminal events `events` holds.
pub open spec fn terminal_count(events: Seq<StreamEventView>) -> nat
    decreases events.len(),
{
    if events.len() == 0 {
        0
    } else {
        terminal_count(events.drop_last()) + if events.last().is_terminal() {
            1nat
        } else {
            0nat
        }
    }
}

/// Chunks alone hold no terminal event.
pub proof fn lemma_chunks_have_no_terminal(events: Seq<StreamEventView>)
    requires
        forall|i: int| 0 <= i < events.len() ==> (#[trigger] events[i]) is Chunk,
    ensures
        terminal_count(events) == 0,
    decreases events.len(),
{
    if events.len() > 0 {
        let front = events.drop_last();
        assert forall|i: int| 0 <= i < front.len() implies (#[trigger] front[i]) is Chunk by {
            assert(front[i] == events[i]);
        }
        lemma_chunks_have_no_terminal(front);
    }
}

/// Every request ends in exactly one terminal event, with nothing but chunks
/// before it, and every event carries the request's stream identifier:
/// whatever the slot held, whatever the worker and the fallback did.
pub proof fn lemma_exactly_one_terminal_event<P>(
    stored: Option<WorkerHandle<P>>,
    request: StreamRequest,
    model: Seq<char>,
    worker: WorkerRunView,
    fallback: FallbackRunView,
)
    ensures
        ({
            let events = stream_run(stored, request, model, worker, fallback).events;
            &&& events.len() > 0
            &&& events.last().is_terminal()
            &&& forall|i: int| 0 <= i < events.len() - 1 ==> (#[trigger] events[i]) is Chunk
            &&& forall|i: int| 0 <= i < events.len() ==> (#[trigger] events[i]).stream_id()
                == request.stream_id@
            &&& terminal_count(events) == 1
        }),
{
    let id = request.stream_id@;
    let events = stream_run(stored, request, model, worker, fallback).events;
    let after = fallback_events(id, fallback);
    lemma_fallback_ends_with_one_terminal(id, fallback);
    let t = worker_transcript(request, worker);
    if request_to_send(request) is Ok && worker.write_failure is None {
        lemma_transcript_shape(id, worker.lines);
    }
    if stored is Some && stored.unwrap().serves(model) && t.ending is Broken {
        assert(events == t.events + after);
        assert(events.last() == after.last());
        assert forall|i: int| 0 <= i < events.len() - 1 implies (#[trigger] events[i]) is Chunk by {
            if i < t.events.len() {
                assert(events[i] == t.events[i]);
            } else {
                assert(events[i] == after[i - t.events.len()]);
            }
        }
        assert forall|i: int| 0 <= i < events.len() implies (#[trigger] events[i]).stream_id()
            == id by {
            if i < t.events.len() {
                assert(events[i] == t.events[i]);
            } else {
                assert(events[i] == after[i - t.events.len()]);
            }
        }
    }
    let front = events.drop_last();
    assert forall|i: int| 0 <= i < front.len() implies (#[trigger] front[i]) is Chunk by {
        assert(front[i] == events[i]);
    }
    lemma_chunks_have_no_terminal(front);
}

/// For each event of the worker path, the index of the line of the worker's
/// output that it reacts to. There are none when the request never reached
/// the worker.
pub open spec fn worker_sources(request: StreamRequest, run: WorkerRunView) -> Seq<int> {
    if request_to_send(request) is Ok && run.write_failure is None {
        sources(request.stream_id@, run.lines)
    } else {
        Seq::empty()
    }
}

/// A ready worker with the requested model serves the request itself, and
/// the consumer sees its chunks in the order in which the worker wrote them:
/// the events of the worker path open the stream, each is what the reaction
/// to its source line asks for, and their source lines come one after the
/// other in the worker's output. If the worker carries the request to its
/// end, these are all the events there are.
pub proof fn lemma_ready_worker_streams_in_order<P>(
    handle: WorkerHandle<P>,
    request: StreamRequest,
    model: Seq<char>,
    worker: WorkerRunView,
    fallback: FallbackRunView,
)
    requires
        request.well_formed(),
        handle.serves(model),
    ensures
        ({
            let run = stream_run(Some(handle), request, model, worker, fallback);
            let from = worker_sources(request, worker);
            &&& run.route != Route::Fallback
            &&& from.len() <= run.events.len()
            &&& forall|i: int|
                0 <= i < from.len() ==> 0 <= #[trigger] from[i] < worker.lines.len() && emitted(
                    reaction(request.stream_id@, worker.lines[from[i]]),
                ) == Some(run.events[i])
            &&& forall|i: int, j: int| 0 <= i < j < from.len() ==> from[i] < from[j]
            &&& run.route == Route::Worker ==> from.len() == run.events.len()
        }),
{
    let id = request.stream_id@;
    if request_to_send(request) is Ok && worker.write_failure is None {
        lemma_events_in_emission_order(id, worker.lines);
        let t = transcript(id, worker.lines);
        let run = stream_run(Some(handle), request, model, worker, fallback);
        assert forall|i: int| 0 <= i < t.events.len() implies run.events[i] == t.events[i] by {}
    }
}

/// A stored worker with another model than the requested one is not used:
/// the fallback serves the request alone and the worker stays in its slot,
/// untouched, for a later request that asks for its model.
pub proof fn lemma_mismatched_worker_is_left_alone<P>(
    handle: WorkerHandle<P>,
    request: StreamRequest,
    model: Seq<char>,
    worker: WorkerRunView,
    fallback: FallbackRunView,
)
    requires
        !handle.serves(model),
    ensures
        ({
            let run = stream_run(Some(handle), request, model, worker, fallback);
            &&& run.stored == Some(handle)
            &&& run.route == Route::Fallback
            &&& run.worker_ending is None
            &&& run.discarded is None
            &&& run.events == fallback_events(request.stream_id@, fallback)
        }),
{
}

/// A worker whose exchange breaks off without a terminal event is discarded,
/// never stored again, and the fallback serves the request, once: the events
/// are the chunks the worker got out followed by the events of one fallback
/// run, and a single terminal event closes the stream.
pub proof fn lemma_broken_worker_falls_back_once<P>(
    handle: WorkerHandle<P>,
    request: StreamRequest,
    model: Seq<char>,
    worker: WorkerRunView,
    fallback: FallbackRunView,
)
    requires
        handle.serves(model),
        worker_transcript(request, worker).ending is Broken,
    ensures
        ({
            let run = stream_run(Some(handle), request, model, worker, fallback);
            &&& run.stored is None
            &&& run.discarded == Some(handle)
            &&& run.route == Route::WorkerThenFallback
            &&& run.events == worker_transcript(request, worker).events + fallback_events(
                request.stream_id@,
                fallback,
            )
            &&& terminal_count(run.events) == 1
        }),
{
    lemma_exactly_one_terminal_event(Some(handle), request, model, worker, fallback);
}

/// A worker that reports an error ends the request itself: the consumer gets
/// that one error event, the fallback is not run, and the worker is
/// discarded.
pub proof fn lemma_reported_error_ends_the_request<P>(
    handle: WorkerHandle<P>,
    request: StreamRequest,
    model: Seq<char>,
    worker: WorkerRunView,
    fallback: FallbackRunView,
)
    requires
        handle.serves(model),
        worker_transcript(request, worker).ending is Aborted,
    ensures
        ({
            let run = stream_run(Some(handle), request, model, worker, fallback);
            &&& run.stored is None
            &&& run.discarded == Some(handle)
            &&& run.route == Route::Worker
            &&& run.events == worker_transcript(request, worker).events
            &&& run.events.last() is Error
        }),
{
    if request_to_send(request) is Ok && worker.write_failure is None {
        lemma_transcript_shape(request.stream_id@, worker.lines);
    }
}

} // verus!
