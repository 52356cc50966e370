use confidant::fallback::{
    broken_stream_text, close_stream, replay_fallback, silent_exit_text, ExitReport, FallbackRun,
    StartFault,
};
use confidant::protocol::LineInput;
use confidant::stream::{Ending, StreamEvent, StreamFault};

fn line(text: &str) -> LineInput {
    LineInput::Line(text.to_string())
}

fn error(message: &str) -> StreamEvent {
    StreamEvent::Error { stream_id: "s1".to_string(), error: message.to_string() }
}

fn exited(success: bool, diagnostics: &str) -> ExitReport {
    ExitReport::Exited { success, diagnostics: Some(diagnostics.to_string()) }
}

#[test]
fn clean_exit_without_answer_is_a_stream_without_response() {
    let expected = "Stream ended without a response. The model may have exited unexpectedly.";
    assert_eq!(silent_exit_text(true, None), expected);
    assert_eq!(silent_exit_text(true, Some("")), expected);
    assert_eq!(silent_exit_text(true, Some(" \n\t\r\n")), expected);
}

#[test]
fn failed_process_without_diagnostics_gets_the_actionable_message() {
    let expected = "Python process failed. Check that the model is loaded and llama-cpp-python is installed (pip install llama-cpp-python).";
    assert_eq!(silent_exit_text(false, None), expected);
    assert_eq!(silent_exit_text(false, Some("\n\n")), expected);
}

#[test]
fn last_non_blank_diagnostic_line_is_appended() {
    assert_eq!(
        silent_exit_text(true, Some("warning: slow\n  Killed  \r\n\n   \n")),
        "Stream ended without a response. The model may have exited unexpectedly. Stderr: Killed"
    );
    assert_eq!(
        silent_exit_text(false, Some("Traceback\nValueError: bad model")),
        "Python process failed. Stderr: ValueError: bad model"
    );
}

#[test]
fn missing_dependency_is_recognised_in_the_last_line_only() {
    assert_eq!(
        silent_exit_text(false, Some("Traceback\nModuleNotFoundError: No module named 'x'\n")),
        "Python: ModuleNotFoundError: No module named 'x' Install with: pip install llama-cpp-python"
    );
    assert_eq!(
        silent_exit_text(true, Some("  ImportError: llama_cpp missing ")),
        "Python: ImportError: llama_cpp missing Install with: pip install llama-cpp-python"
    );
    assert_eq!(
        silent_exit_text(false, Some("ModuleNotFoundError: early\nsegfault")),
        "Python process failed. Stderr: segfault"
    );
}

#[test]
fn broken_stream_messages_name_what_broke() {
    let exit = exited(true, "");
    assert_eq!(
        broken_stream_text(&StreamFault::Malformed { reason: "expected value".to_string() }, &exit),
        "Invalid JSON from Python: expected value"
    );
    assert_eq!(
        broken_stream_text(&StreamFault::ReadFailed { reason: "reset".to_string() }, &exit),
        "Failed to read line from Python: reset"
    );
    assert_eq!(
        broken_stream_text(
            &StreamFault::EndedWithoutResponse,
            &ExitReport::WaitFailed { reason: "no child".to_string() }
        ),
        "Failed to wait for Python process: no child"
    );
}

#[test]
fn start_failures_have_their_messages() {
    assert_eq!(
        StartFault::Locate { reason: "Python not found. Please install Python 3.".to_string() }
            .message(),
        "Python not found. Please install Python 3."
    );
    assert_eq!(
        StartFault::Spawn { reason: "denied".to_string() }.message(),
        "Failed to spawn Python process: denied"
    );
    assert_eq!(
        StartFault::WritePrompt { reason: "pipe".to_string() }.message(),
        "Failed to write prompt to Python stdin: pipe"
    );
    assert_eq!(StartFault::NoOutput.message(), "No stdout from Python process");
    assert_eq!(StartFault::NoOutput.event("s1"), error("No stdout from Python process"));
}

#[test]
fn close_stream_adds_nothing_after_a_terminal_event() {
    let exit = ExitReport::WaitFailed { reason: "late".to_string() };
    assert_eq!(close_stream("s1", &Ending::Completed, &exit), None);
    assert_eq!(close_stream("s1", &Ending::Aborted, &exit), None);
    assert_eq!(
        close_stream("s1", &Ending::Broken(StreamFault::EndedWithoutResponse), &exit),
        Some(error("Failed to wait for Python process: late"))
    );
}

#[test]
fn fallback_that_exits_silently_reports_it() {
    let run = FallbackRun { start: None, lines: Vec::new(), exit: exited(true, "") };
    assert_eq!(
        replay_fallback("s1", &run),
        vec![error("Stream ended without a response. The model may have exited unexpectedly.")]
    );
}

#[test]
fn fallback_keeps_chunks_before_its_closing_error() {
    let run = FallbackRun {
        start: None,
        lines: vec![line("{\"text\":\"a\"}"), line("{\"text\":\"b\"}")],
        exit: exited(false, "CUDA out of memory\n"),
    };
    assert_eq!(
        replay_fallback("s1", &run),
        vec![
            StreamEvent::Chunk { stream_id: "s1".to_string(), text: "a".to_string() },
            StreamEvent::Chunk { stream_id: "s1".to_string(), text: "b".to_string() },
            error("Python process failed. Stderr: CUDA out of memory"),
        ]
    );
}
