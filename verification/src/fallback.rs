//! The one-shot fallback: a disposable process started for a single request
//! when no usable worker is stored.
//!
//! Its output is read like a worker's. What differs is the end: whatever goes
//! wrong, the fallback is the last resort, so it always closes the stream
//! with exactly one terminal event. This module says which.

use crate::protocol::{inputs_view, LineInput, LineInputView};
use crate::stream::{events_view, replay, transcript, Ending, EndingView, StreamEvent,
    StreamEventView, StreamFault, StreamFaultView};
use crate::text::{chars_contain, contains, last_nonblank_line, last_nonblank_line_bounds, to_chars};
use vstd::prelude::*;

verus! {

/// Why the fallback process never got to answer.
#[derive(Debug, Clone, PartialEq, Eq)]
pub enum StartFault {
    /// No interpreter or script to run; `reason` says what is missing.
    Locate { reason: String },
    /// The process could not be spawned.
    Spawn { reason: String },
    /// The prompt could not be written to the process.
    WritePrompt { reason: String },
    /// The process has no output to read from.
    NoOutput,
}

pub enum StartFaultView {
    Locate { reason: Seq<char> },
    Spawn { reason: Seq<char> },
    WritePrompt { reason: Seq<char> },
    NoOutput,
}

impl View for StartFault {
    type V = StartFaultView;

    open spec fn view(&self) -> StartFaultView {
        match self {
            StartFault::Locate { reason } => StartFaultView::Locate { reason: reason@ },
            StartFault::Spawn { reason } => StartFaultView::Spawn { reason: reason@ },
            StartFault::WritePrompt { reason } => StartFaultView::WritePrompt {
                reason: reason@,
            },
            StartFault::NoOutput => StartFaultView::NoOutput,
        }
    }
}

/// How the fallback process ended, as far as could be found out.
#[derive(Debug, Clone, PartialEq, Eq)]
pub enum ExitReport {
    /// The process exited, successfully or not. `diagnostics` is what it
    /// wrote to its error stream, if that could be read.
    Exited { success: bool, diagnostics: Option<String> },
    /// Waiting for the process failed.
    WaitFailed { reason: String },
}

pub enum ExitReportView {
    Exited { success: bool, diagnostics: Option<Seq<char>> },
    WaitFailed { reason: Seq<char> },
}

impl View for ExitReport {
    type V = ExitReportView;

    open spec fn view(&self) -> ExitReportView {
        match self {
            ExitReport::Exited { success, diagnostics } => ExitReportView::Exited {
                success: *success,
                diagnostics: match diagnostics {
                    Some(text) => Some(text@),
                    None => None,
                },
            },
            ExitReport::WaitFailed { reason } => ExitReportView::WaitFailed { reason: reason@ },
        }
    }
}

/// Whether a diagnostic line points at the inference bindings not being
/// installed.
pub open spec fn hints_at_missing_dependency(line: Seq<char>) -> bool {
    contains(line, "llama_cpp"@) || contains(line, "ModuleNotFoundError"@)
}

/// What to tell the consumer when the process ended without ever answering.
///
/// The last non-blank line of the diagnostics, if there is one, is the
/// detail: when it hints at a missing dependency the message says how to
/// install it, otherwise the line is appended to the plain message. A clean
/// exit without an answer reads differently from a failed process.
pub open spec fn silent_exit_message(success: bool, diagnostics: Option<Seq<char>>) -> Seq<char> {
    let detail = match diagnostics {
        Some(text) => last_nonblank_line(text),
        None => Seq::empty(),
    };
    if detail.len() > 0 {
        if hints_at_missing_dependency(detail) {
            "Python: "@ + detail + " Install with: pip install llama-cpp-python"@
        } else if success {
            "Stream ended without a response. The model may have exited unexpectedly."@
                + " Stderr: "@ + detail
        } else {
            "Python process failed."@ + " Stderr: "@ + detail
        }
    } else if success {
        "Stream ended without a response. The model may have exited unexpectedly."@
    } else {
        "Python process failed. Check that the model is loaded and llama-cpp-python is installed (pip install llama-cpp-python)."@
    }
}

pub open spec fn start_failure_message(failure: StartFaultView) -> Seq<char> {
    match failure {
        StartFaultView::Locate { reason } => reason,
        StartFaultView::Spawn { reason } => "Failed to spawn Python process: "@ + reason,
        StartFaultView::WritePrompt { reason } => "Failed to write prompt to Python stdin: "@
            + reason,
        StartFaultView::NoOutput => "No stdout from Python process"@,
    }
}

/// The message of the error event that closes a fallback stream which broke
/// off with `failure`, given how the process ended.
pub open spec fn broken_stream_message(failure: StreamFaultView, exit: ExitReportView) -> Seq<
    char,
> {
    match failure {
        StreamFaultView::Malformed { reason } => "Invalid JSON from Python: "@ + reason,
        StreamFaultView::ReadFailed { reason } => "Failed to read line from Python: "@ + reason,
        StreamFaultView::NotSent { reason } => "Failed to write prompt to Python stdin: "@
            + reason,
        StreamFaultView::EndedWithoutResponse => match exit {
            ExitReportView::WaitFailed { reason } => "Failed to wait for Python process: "@
                + reason,
            ExitReportView::Exited { success, diagnostics } => silent_exit_message(
                success,
                diagnostics,
            ),
        },
    }
}

/// The event that closes a fallback stream after its output ended as
/// `ending`: none if a terminal event was already emitted, otherwise the
/// error event that says what went wrong.
pub open spec fn closing_event(stream_id: Seq<char>, ending: EndingView, exit: ExitReportView)
    -> Option<StreamEventView> {
    match ending {
        EndingView::Broken(failure) => Some(
            StreamEventView::Error { stream_id, error: broken_stream_message(failure, exit) },
        ),
        _ => None,
    }
}

/// Everything a fallback process did, for replaying it.
#[derive(Debug, Clone, PartialEq, Eq)]
pub struct FallbackRun {
    /// Set when the process never got to answer.
    pub start: Option<StartFault>,
    /// What reading its output gave, line by line.
    pub lines: Vec<LineInput>,
    pub exit: ExitReport,
}

pub struct FallbackRunView {
    pub start: Option<StartFaultView>,
    pub lines: Seq<LineInputView>,
    pub exit: ExitReportView,
}

impl View for FallbackRun {
    type V = FallbackRunView;

    open spec fn view(&self) -> FallbackRunView {
        FallbackRunView {
            start: match self.start {
                Some(failure) => Some(failure@),
                None => None,
            },
            lines: inputs_view(self.lines@),
            exit: self.exit@,
        }
    }
}

/// The events of a fallback run: the transcript of its output, closed by an
/// error event unless the output itself ended the stream. A process that
/// never got to answer yields that one error event.
pub open spec fn fallback_events(stream_id: Seq<char>, run: FallbackRunView) -> Seq<
    StreamEventView,
> {
    match run.start {
        Some(failure) => seq![
            StreamEventView::Error { stream_id, error: start_failure_message(failure) },
        ],
        None => {
            let t = transcript(stream_id, run.lines);
            match closing_event(stream_id, t.ending, run.exit) {
                Some(event) => t.events.push(event),
                None => t.events,
            }
        },
    }
}

/// What to tell the consumer when the process ended without ever answering.
pub fn silent_exit_text(success: bool, diagnostics: Option<&str>) -> (message: String)
    ensures
        message@ == silent_exit_message(
            success,
            match diagnostics {
                Some(text) => Some(text@),
                None => None,
            },
        ),
{
    if let Some(text) = diagnostics {
        let chars = to_chars(text);
        let (from, to) = last_nonblank_line_bounds(&chars);
        if from < to {
            let detail = text.substring_char(from, to);
            let hint = chars_contain(&chars, from, to, &to_chars("llama_cpp")) || chars_contain(
                &chars,
                from,
                to,
                &to_chars("ModuleNotFoundError"),
            );
            if hint {
                let mut message = String::from_str("Python: ");
                message.append(detail);
                message.append(" Install with: pip install llama-cpp-python");
                return message;
            }
            let mut message = if success {
                String::from_str(
                    "Stream ended without a response. The model may have exited unexpectedly.",
                )
            } else {
                String::from_str("Python process failed.")
            };
            message.append(" Stderr: ");
            message.append(detail);
            return message;
        }
    }
    if success {
        String::from_str("Stream ended without a response. The model may have exited unexpectedly.")
    } else {
        String::from_str(
            "Python process failed. Check that the model is loaded and llama-cpp-python is installed (pip install llama-cpp-python).",
        )
    }
}

impl StartFault {
    /// The message of the error event that stands for this failure.
    pub fn message(&self) -> (text: String)
        ensures
            text@ == start_failure_message(self@),
    {
        match self {
            StartFault::Locate { reason } => reason.clone(),
            StartFault::Spawn { reason } => {
                let mut text = String::from_str("Failed to spawn Python process: ");
                text.append(reason.as_str());
                text
            },
            StartFault::WritePrompt { reason } => {
                let mut text = String::from_str("Failed to write prompt to Python stdin: ");
                text.append(reason.as_str());
                text
            },
            StartFault::NoOutput => String::from_str("No stdout from Python process"),
        }
    }

    /// The one event of a fallback that never got to answer.
    pub fn event(&self, stream_id: &str) -> (event: StreamEvent)
        ensures
            event@ == (StreamEventView::Error {
                stream_id: stream_id@,
                error: start_failure_message(self@),
            }),
    {
        StreamEvent::Error { stream_id: stream_id.to_owned(), error: self.message() }
    }
}

/// The message of the error event that closes a fallback stream which broke
/// off with `failure`.
pub fn broken_stream_text(failure: &StreamFault, exit: &ExitReport) -> (message: String)
    ensures
        message@ == broken_stream_message(failure@, exit@),
{
    match failure {
        StreamFault::Malformed { reason } => {
            let mut message = String::from_str("Invalid JSON from Python: ");
            message.append(reason.as_str());
            message
        },
        StreamFault::ReadFailed { reason } => {
            let mut message = String::from_str("Failed to read line from Python: ");
            message.append(reason.as_str());
            message
        },
        StreamFault::NotSent { reason } => {
            let mut message = String::from_str("Failed to write prompt to Python stdin: ");
            message.append(reason.as_str());
            message
        },
        StreamFault::EndedWithoutResponse => match exit {
            ExitReport::WaitFailed { reason } => {
                let mut message = String::from_str("Failed to wait for Python process: ");
                message.append(reason.as_str());
                message
            },
            ExitReport::Exited { success, diagnostics } => match diagnostics {
                Some(text) => silent_exit_text(*success, Some(text.as_str())),
                None => silent_exit_text(*success, None),
            },
        },
    }
}

/// The event that closes a fallback stream whose output ended as `ending`.
pub fn close_stream(stream_id: &str, ending: &Ending, exit: &ExitReport) -> (event: Option<
    StreamEvent,
>)
    ensures
        match event {
            Some(e) => closing_event(stream_id@, ending@, exit@) == Some(e@),
            None => closing_event(stream_id@, ending@, exit@) is None,
        },
{
    match ending {
        Ending::Broken(failure) => Some(
            StreamEvent::Error {
                stream_id: stream_id.to_owned(),
                error: broken_stream_text(failure, exit),
            },
        ),
        _ => None,
    }
}

/// Replays a fallback run for the stream `stream_id`.
pub fn replay_fallback(stream_id: &str, run: &FallbackRun) -> (events: Vec<StreamEvent>)
    ensures
        events_view(events@) == fallback_events(stream_id@, run@),
{
    match &run.start {
        Some(failure) => {
            let mut events: Vec<StreamEvent> = Vec::new();
            events.push(failure.event(stream_id));
            assert(events_view(events@) =~= fallback_events(stream_id@, run@));
            events
        },
        None => {
            let t = replay(stream_id, &run.lines);
            let mut events = t.events;
            let ghost before = events_view(events@);
            match close_stream(stream_id, &t.ending, &run.exit) {
                Some(event) => {
                    events.push(event);
                    assert(events_view(events@) =~= before.push(event@));
                },
                None => {},
            }
            events
        },
    }
}

/// A fallback always closes its stream: its events are chunks followed by
/// exactly one terminal event, all for the stream it serves.
pub proof fn lemma_fallback_ends_with_one_terminal(stream_id: Seq<char>, run: FallbackRunView)
    ensures
        ({
            let events = fallback_events(stream_id, run);
            &&& events.len() > 0
            &&& events.last().is_terminal()
            &&& forall|i: int| 0 <= i < events.len() - 1 ==> (#[trigger] events[i]) is Chunk
            &&& forall|i: int| 0 <= i < events.len() ==> (#[trigger] events[i]).stream_id()
                == stream_id
        }),
{
    if run.start is None {
        crate::stream::lemma_transcript_shape(stream_id, run.lines);
    }
}

} // verus!
