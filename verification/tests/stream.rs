use confidant::protocol::LineInput;
use confidant::stream::{react, replay, Ending, Reaction, StreamEvent, StreamFault};

fn line(text: &str) -> LineInput {
    LineInput::Line(text.to_string())
}

fn chunk(text: &str) -> StreamEvent {
    StreamEvent::Chunk { stream_id: "s1".to_string(), text: text.to_string() }
}

fn done(full: &str) -> StreamEvent {
    StreamEvent::Done { stream_id: "s1".to_string(), full: full.to_string() }
}

fn error(message: &str) -> StreamEvent {
    StreamEvent::Error { stream_id: "s1".to_string(), error: message.to_string() }
}

#[test]
fn react_maps_each_message_to_its_event() {
    assert_eq!(react("s1", &line("{\"text\":\"He\"}")), Reaction::Forward(chunk("He")));
    assert_eq!(
        react("s1", &line("{\"done\":true,\"full\":\"Hello\"}")),
        Reaction::Complete(done("Hello"))
    );
    assert_eq!(react("s1", &line("{\"error\":\"OOM\"}")), Reaction::Abort(error("OOM")));
    assert_eq!(react("s1", &line("{\"ready\":true}")), Reaction::Skip);
    assert_eq!(react("s1", &line("{\"progress\":3}")), Reaction::Skip);
}

#[test]
fn react_breaks_on_what_is_no_message() {
    assert_eq!(react("s1", &LineInput::Closed), Reaction::Broken(StreamFault::EndedWithoutResponse));
    assert_eq!(
        react("s1", &LineInput::Failed("reset".to_string())),
        Reaction::Broken(StreamFault::ReadFailed { reason: "reset".to_string() })
    );
    assert!(matches!(
        react("s1", &line("not json")),
        Reaction::Broken(StreamFault::Malformed { .. })
    ));
    assert!(matches!(react("s1", &line("")), Reaction::Broken(StreamFault::Malformed { .. })));
}

#[test]
fn events_know_their_channel_and_stream() {
    assert_eq!(chunk("a").channel(), "llm-stream-chunk");
    assert_eq!(done("a").channel(), "llm-stream-done");
    assert_eq!(error("a").channel(), "llm-stream-error");
    assert_eq!(chunk("a").stream_id(), "s1");
    assert!(!chunk("a").is_terminal());
    assert!(done("a").is_terminal());
    assert!(error("a").is_terminal());
}

#[test]
fn replay_keeps_chunks_in_order_and_stops_at_done() {
    let inputs = vec![
        line("{\"text\":\"a\"}"),
        line("{\"note\":1}"),
        line("{\"text\":\"b\"}"),
        line("{\"text\":\"c\"}"),
        line("{\"done\":true,\"full\":\"abc\"}"),
        line("{\"text\":\"after the end\"}"),
    ];
    let t = replay("s1", &inputs);
    assert_eq!(t.events, vec![chunk("a"), chunk("b"), chunk("c"), done("abc")]);
    assert_eq!(t.ending, Ending::Completed);
}

#[test]
fn replay_of_nothing_is_a_stream_without_response() {
    let t = replay("s1", &Vec::new());
    assert!(t.events.is_empty());
    assert_eq!(t.ending, Ending::Broken(StreamFault::EndedWithoutResponse));
}

#[test]
fn replay_breaks_on_malformed_line_after_chunks() {
    let t = replay("s1", &vec![line("{\"text\":\"a\"}"), line("oops"), line("{\"done\":true}")]);
    assert_eq!(t.events, vec![chunk("a")]);
    assert!(matches!(t.ending, Ending::Broken(StreamFault::Malformed { .. })));
}

#[test]
fn replay_aborts_on_error_line() {
    let t = replay("s1", &vec![line("{\"text\":\"a\"}"), line("{\"error\":\"boom\"}")]);
    assert_eq!(t.events, vec![chunk("a"), error("boom")]);
    assert_eq!(t.ending, Ending::Aborted);
}

#[test]
fn failures_have_their_log_messages() {
    assert_eq!(StreamFault::EndedWithoutResponse.message(), "Worker stream ended without done.");
    assert_eq!(
        StreamFault::ReadFailed { reason: "reset".to_string() }.message(),
        "Read from worker: reset"
    );
    assert_eq!(
        StreamFault::Malformed { reason: "expected value".to_string() }.message(),
        "Worker JSON: expected value"
    );
    assert_eq!(
        StreamFault::NotSent { reason: "Flush worker: closed".to_string() }.message(),
        "Flush worker: closed"
    );
}
