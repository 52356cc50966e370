use confidant::config::LLMConfig;
use confidant::executor::{
    fallback_is_due, prepare_request, run_stream, settle, Route, Settlement, WorkerRun,
};
use confidant::fallback::{ExitReport, FallbackRun, StartFault};
use confidant::protocol::{LineInput, StreamRequest};
use confidant::stream::{Ending, StreamEvent, StreamFault};
use confidant::supervisor::{Supervisor, WorkerHandle};

const MODEL: &str = "/models/llama.gguf";

fn line(text: &str) -> LineInput {
    LineInput::Line(text.to_string())
}

fn chunk(text: &str) -> StreamEvent {
    StreamEvent::Chunk { stream_id: "s1".to_string(), text: text.to_string() }
}

fn done(full: &str) -> StreamEvent {
    StreamEvent::Done { stream_id: "s1".to_string(), full: full.to_string() }
}

fn error(message: &str) -> StreamEvent {
    StreamEvent::Error { stream_id: "s1".to_string(), error: message.to_string() }
}

fn request() -> StreamRequest {
    StreamRequest {
        stream_id: "s1".to_string(),
        prompt: "hi".to_string(),
        config: LLMConfig::new("0.7", "0.9", 16).unwrap(),
    }
}

fn supervisor_with(model: &str) -> Supervisor<u32> {
    let mut supervisor = Supervisor::new();
    supervisor.release(WorkerHandle::new(model.to_string(), 7));
    supervisor
}

fn worker(lines: Vec<LineInput>) -> WorkerRun {
    WorkerRun { write_failure: None, lines }
}

fn fallback_answering(lines: Vec<LineInput>) -> FallbackRun {
    FallbackRun {
        start: None,
        lines,
        exit: ExitReport::Exited { success: true, diagnostics: Some(String::new()) },
    }
}

fn terminal_events(events: &[StreamEvent]) -> usize {
    events.iter().filter(|event| event.is_terminal()).count()
}

#[test]
fn worker_streams_chunks_then_done() {
    let mut supervisor = supervisor_with(MODEL);
    let run = worker(vec![
        line("{\"text\":\"He\"}"),
        line("{\"text\":\"llo\"}"),
        line("{\"done\":true,\"full\":\"Hello\"}"),
    ]);
    let unused = fallback_answering(vec![line("{\"done\":true,\"full\":\"from fallback\"}")]);
    let report = run_stream(&mut supervisor, &request(), MODEL, &run, &unused);
    assert_eq!(report.events, vec![chunk("He"), chunk("llo"), done("Hello")]);
    assert_eq!(report.route, Route::Worker);
    assert_eq!(report.worker_ending, Some(Ending::Completed));
    assert!(report.discarded.is_none());
    let stored = supervisor.acquire(MODEL).unwrap();
    assert_eq!((stored.model.as_str(), stored.process), (MODEL, 7));
}

#[test]
fn worker_error_on_first_line_is_the_only_event() {
    let mut supervisor = supervisor_with(MODEL);
    let run = worker(vec![line("{\"error\":\"OOM\"}")]);
    let unused = fallback_answering(vec![line("{\"done\":true,\"full\":\"from fallback\"}")]);
    let report = run_stream(&mut supervisor, &request(), MODEL, &run, &unused);
    assert_eq!(report.events, vec![error("OOM")]);
    assert_eq!(report.route, Route::Worker);
    assert_eq!(report.worker_ending, Some(Ending::Aborted));
    assert_eq!(report.discarded.unwrap().process, 7);
    assert!(!supervisor.is_occupied());
}

#[test]
fn worker_closing_without_lines_falls_back() {
    let mut supervisor = supervisor_with(MODEL);
    let run = worker(Vec::new());
    let fallback = fallback_answering(vec![
        line("{\"text\":\"Hi\"}"),
        line("{\"done\":true,\"full\":\"Hi\"}"),
    ]);
    let report = run_stream(&mut supervisor, &request(), MODEL, &run, &fallback);
    assert_eq!(
        report.worker_ending,
        Some(Ending::Broken(StreamFault::EndedWithoutResponse))
    );
    assert_eq!(
        StreamFault::EndedWithoutResponse.message(),
        "Worker stream ended without done."
    );
    assert_eq!(report.route, Route::WorkerThenFallback);
    assert_eq!(report.events, vec![chunk("Hi"), done("Hi")]);
    assert_eq!(report.discarded.unwrap().process, 7);
    assert!(!supervisor.is_occupied());
}

#[test]
fn worker_closing_mid_stream_falls_back_once() {
    let mut supervisor = supervisor_with(MODEL);
    let run = worker(vec![line("{\"text\":\"He\"}"), LineInput::Closed, line("{\"done\":true}")]);
    let fallback = fallback_answering(vec![
        line("{\"text\":\"Hello\"}"),
        line("{\"done\":true,\"full\":\"Hello\"}"),
    ]);
    let report = run_stream(&mut supervisor, &request(), MODEL, &run, &fallback);
    assert_eq!(report.events, vec![chunk("He"), chunk("Hello"), done("Hello")]);
    assert_eq!(terminal_events(&report.events), 1);
    assert_eq!(report.route, Route::WorkerThenFallback);
    assert_eq!(report.discarded.unwrap().process, 7);
    assert!(!supervisor.is_occupied());
}

#[test]
fn worker_with_another_model_is_put_back_untouched() {
    let mut supervisor = supervisor_with("/models/other.gguf");
    let run = worker(vec![line("{\"done\":true,\"full\":\"from worker\"}")]);
    let fallback = fallback_answering(vec![line("{\"done\":true,\"full\":\"from fallback\"}")]);
    let report = run_stream(&mut supervisor, &request(), MODEL, &run, &fallback);
    assert_eq!(report.events, vec![done("from fallback")]);
    assert_eq!(report.route, Route::Fallback);
    assert_eq!(report.worker_ending, None);
    assert!(report.discarded.is_none());
    let stored = supervisor.checkout("/models/other.gguf").unwrap();
    assert_eq!(stored.process, 7);
}

#[test]
fn empty_slot_uses_the_fallback() {
    let mut supervisor: Supervisor<u32> = Supervisor::new();
    let run = worker(vec![line("{\"done\":true,\"full\":\"from worker\"}")]);
    let fallback = fallback_answering(vec![line("{\"error\":\"no model\"}")]);
    let report = run_stream(&mut supervisor, &request(), MODEL, &run, &fallback);
    assert_eq!(report.events, vec![error("no model")]);
    assert_eq!(report.route, Route::Fallback);
    assert!(!supervisor.is_occupied());
}

#[test]
fn both_paths_failing_still_gives_one_terminal_event() {
    let mut supervisor = supervisor_with(MODEL);
    let run = worker(vec![line("{\"text\":\"He\"}"), line("garbage")]);
    let fallback = FallbackRun {
        start: Some(StartFault::Spawn { reason: "No such file or directory".to_string() }),
        lines: Vec::new(),
        exit: ExitReport::WaitFailed { reason: "never started".to_string() },
    };
    let report = run_stream(&mut supervisor, &request(), MODEL, &run, &fallback);
    assert_eq!(
        report.events,
        vec![chunk("He"), error("Failed to spawn Python process: No such file or directory")]
    );
    assert!(matches!(
        report.worker_ending,
        Some(Ending::Broken(StreamFault::Malformed { .. }))
    ));
    assert!(!supervisor.is_occupied());
}

#[test]
fn request_that_cannot_be_written_falls_back() {
    let mut supervisor = supervisor_with(MODEL);
    let run = WorkerRun {
        write_failure: Some("Write to worker: Broken pipe".to_string()),
        lines: vec![line("{\"done\":true,\"full\":\"never read\"}")],
    };
    let fallback = fallback_answering(vec![line("{\"done\":true,\"full\":\"ok\"}")]);
    let report = run_stream(&mut supervisor, &request(), MODEL, &run, &fallback);
    assert_eq!(report.events, vec![done("ok")]);
    assert_eq!(
        report.worker_ending,
        Some(Ending::Broken(StreamFault::NotSent {
            reason: "Write to worker: Broken pipe".to_string()
        }))
    );
    assert_eq!(report.route, Route::WorkerThenFallback);
}

#[test]
fn settle_returns_only_after_done() {
    let mut supervisor: Supervisor<u32> = Supervisor::new();
    let handle = WorkerHandle::new(MODEL.to_string(), 1);
    assert!(matches!(
        settle(&mut supervisor, handle, &Ending::Completed),
        Settlement::Returned { displaced: None }
    ));
    let handle = supervisor.acquire(MODEL).unwrap();
    match settle(&mut supervisor, handle, &Ending::Aborted) {
        Settlement::Discarded { handle } => assert_eq!(handle.process, 1),
        other => panic!("not discarded: {:?}", other),
    }
    assert!(!supervisor.is_occupied());
    let handle = WorkerHandle::new(MODEL.to_string(), 2);
    let broken = Ending::Broken(StreamFault::EndedWithoutResponse);
    assert!(matches!(settle(&mut supervisor, handle, &broken), Settlement::Discarded { .. }));
    assert!(!supervisor.is_occupied());
}

#[test]
fn fallback_is_due_only_without_a_terminal_event() {
    assert!(!fallback_is_due(&Ending::Completed));
    assert!(!fallback_is_due(&Ending::Aborted));
    assert!(fallback_is_due(&Ending::Broken(StreamFault::EndedWithoutResponse)));
    assert!(fallback_is_due(&Ending::Broken(StreamFault::ReadFailed { reason: "x".to_string() })));
}

#[test]
fn prepare_request_gives_the_encoded_line() {
    assert_eq!(
        prepare_request(&request()),
        Ok("{\"prompt\":\"hi\",\"temperature\":0.7,\"top_p\":0.9,\"max_tokens\":16}\n".to_string())
    );
}
