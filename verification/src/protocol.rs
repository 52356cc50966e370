//! The line protocol between the supervisor and a worker: one JSON object per
//! line in both directions.
//!
//! A request is `{"prompt":..,"temperature":..,"top_p":..,"max_tokens":..}`.
//! A worker answers `{"ready": true}` once it has loaded its model, then, for
//! each request, any number of `{"text": ..}` lines followed by one
//! `{"done": true, "full": ..}` or `{"error": ..}`.
//!
//! A line is read in one of two ways. Before a worker is ready only `error`
//! and `ready` count (`decode_startup`); once it serves requests a line is
//! one message of an answer (`decode`).

use crate::config::{lemma_decimal_has_no_line_feed, LLMConfig};
use crate::json::{
    find_flag, find_text, flag_member, members_view, parse_object, parsed_members, quote_text,
    quoted_json, text_member, text_result_view, JsonMember, JsonMemberView,
};
use crate::text::{decimal, lemma_decimal_is_digits, push_decimal};
use vstd::prelude::*;

verus! {

/// A request for one streamed generation.
#[derive(Debug)]
pub struct StreamRequest {
    /// Chosen by the caller; every event of the stream carries it.
    pub stream_id: String,
    pub prompt: String,
    pub config: LLMConfig,
}

impl StreamRequest {
    pub open spec fn well_formed(&self) -> bool {
        self.config.well_formed()
    }
}

/// What reading one line from a worker's output gave.
#[derive(Debug, Clone, PartialEq, Eq)]
pub enum LineInput {
    /// A line, with or without its line ending.
    Line(String),
    /// The stream is closed: nothing more will come.
    Closed,
    /// Reading failed, for the reason given.
    Failed(String),
}

pub enum LineInputView {
    Line(Seq<char>),
    Closed,
    Failed(Seq<char>),
}

impl View for LineInput {
    type V = LineInputView;

    open spec fn view(&self) -> LineInputView {
        match self {
            LineInput::Line(line) => LineInputView::Line(line@),
            LineInput::Closed => LineInputView::Closed,
            LineInput::Failed(reason) => LineInputView::Failed(reason@),
        }
    }
}

pub open spec fn inputs_view(inputs: Seq<LineInput>) -> Seq<LineInputView> {
    inputs.map_values(|input: LineInput| input@)
}

/// What a worker says in one line.
#[derive(Debug, Clone, PartialEq, Eq)]
pub enum ProtocolMessage {
    /// The model is loaded; requests may be sent.
    Ready,
    /// The next piece of the answer.
    Chunk { text: String },
    /// The answer is complete.
    Done { full_text: String },
    /// The worker gives up on the request, or on starting.
    Error { message: String },
}

pub enum ProtocolMessageView {
    Ready,
    Chunk { text: Seq<char> },
    Done { full_text: Seq<char> },
    Error { message: Seq<char> },
}

impl View for ProtocolMessage {
    type V = ProtocolMessageView;

    open spec fn view(&self) -> ProtocolMessageView {
        match self {
            ProtocolMessage::Ready => ProtocolMessageView::Ready,
            ProtocolMessage::Chunk { text } => ProtocolMessageView::Chunk { text: text@ },
            ProtocolMessage::Done { full_text } => ProtocolMessageView::Done {
                full_text: full_text@,
            },
            ProtocolMessage::Error { message } => ProtocolMessageView::Error { message: message@ },
        }
    }
}

pub open spec fn optional_message_view(m: Option<ProtocolMessage>) -> Option<ProtocolMessageView> {
    match m {
        Some(m) => Some(m@),
        None => None,
    }
}

pub open spec fn decode_view(d: Result<Option<ProtocolMessage>, String>) -> Result<
    Option<ProtocolMessageView>,
    Seq<char>,
> {
    match d {
        Ok(m) => Ok(optional_message_view(m)),
        Err(reason) => Err(reason@),
    }
}

/// The message that a JSON object with these members stands for, if any.
///
/// An `error` member that holds a string makes the line an error, whatever
/// else it holds. Otherwise `done: true` completes the answer, with the text
/// of `full` (empty when there is none); otherwise a `text` string is a chunk;
/// otherwise `ready: true` reports readiness. An object with none of these is
/// noise.
pub open spec fn classify(members: Seq<JsonMemberView>) -> Option<ProtocolMessageView> {
    if let Some(message) = text_member(members, "error"@) {
        Some(ProtocolMessageView::Error { message })
    } else if flag_member(members, "done"@) == Some(true) {
        Some(
            ProtocolMessageView::Done {
                full_text: match text_member(members, "full"@) {
                    Some(full) => full,
                    None => Seq::empty(),
                },
            },
        )
    } else if let Some(text) = text_member(members, "text"@) {
        Some(ProtocolMessageView::Chunk { text })
    } else if flag_member(members, "ready"@) == Some(true) {
        Some(ProtocolMessageView::Ready)
    } else {
        None
    }
}

/// What a startup line says: an error if its object holds an `error` text,
/// else readiness if it holds `ready: true`, else nothing. Whatever else the
/// object holds does not count before a worker is ready.
pub open spec fn startup_message(members: Seq<JsonMemberView>) -> Option<ProtocolMessageView> {
    if let Some(message) = text_member(members, "error"@) {
        Some(ProtocolMessageView::Error { message })
    } else if flag_member(members, "ready"@) == Some(true) {
        Some(ProtocolMessageView::Ready)
    } else {
        None
    }
}

/// What a startup line decodes to: what its object says, or, when the line
/// is not JSON, the parser's complaint.
pub open spec fn decoded_startup(line: Seq<char>) -> Result<
    Option<ProtocolMessageView>,
    Seq<char>,
> {
    match parsed_members(line) {
        Ok(members) => Ok(startup_message(members)),
        Err(reason) => Err(reason),
    }
}

/// What a line decodes to: a message, noise (`Ok(None)`), or, when the line
/// is not JSON, the parser's complaint.
pub open spec fn decoded(line: Seq<char>) -> Result<Option<ProtocolMessageView>, Seq<char>> {
    match parsed_members(line) {
        Ok(members) => Ok(classify(members)),
        Err(reason) => Err(reason),
    }
}

/// The request line for an already quoted prompt.
pub open spec fn request_line(
    quoted_prompt: Seq<char>,
    temperature: Seq<char>,
    top_p: Seq<char>,
    max_tokens: nat,
) -> Seq<char> {
    "{\"prompt\":"@ + quoted_prompt + ",\"temperature\":"@ + temperature + ",\"top_p\":"@ + top_p
        + ",\"max_tokens\":"@ + decimal(max_tokens) + "}\n"@
}

/// What a request encodes to: its line, or the serializer's complaint about
/// the prompt.
pub open spec fn encoded(request: StreamRequest) -> Result<Seq<char>, Seq<char>> {
    match quoted_json(request.prompt@) {
        Ok(quoted) => Ok(
            request_line(
                quoted,
                request.config.temperature@,
                request.config.top_p@,
                request.config.max_tokens as nat,
            ),
        ),
        Err(reason) => Err(reason),
    }
}

/// One line: a single line feed, at the very end.
pub open spec fn is_single_line(s: Seq<char>) -> bool {
    &&& s.len() > 0
    &&& s.last() == '\n'
    &&& !s.drop_last().contains('\n')
}

/// The message that a JSON object with these members stands for, if any.
pub fn message_of(members: &Vec<JsonMember>) -> (message: Option<ProtocolMessage>)
    ensures
        optional_message_view(message) == classify(members_view(members@)),
{
    if let Some(message) = find_text(members, "error") {
        return Some(ProtocolMessage::Error { message });
    }
    if let Some(true) = find_flag(members, "done") {
        let full_text = match find_text(members, "full") {
            Some(full) => full,
            None => String::new(),
        };
        return Some(ProtocolMessage::Done { full_text });
    }
    if let Some(text) = find_text(members, "text") {
        return Some(ProtocolMessage::Chunk { text });
    }
    if let Some(true) = find_flag(members, "ready") {
        return Some(ProtocolMessage::Ready);
    }
    None
}

/// What a startup line with these members says.
pub fn startup_message_of(members: &Vec<JsonMember>) -> (message: Option<ProtocolMessage>)
    ensures
        optional_message_view(message) == startup_message(members_view(members@)),
{
    if let Some(message) = find_text(members, "error") {
        return Some(ProtocolMessage::Error { message });
    }
    if let Some(true) = find_flag(members, "ready") {
        return Some(ProtocolMessage::Ready);
    }
    None
}

/// Decodes one line of the output of a worker that is not ready yet.
pub fn decode_startup(line: &str) -> (message: Result<Option<ProtocolMessage>, String>)
    ensures
        decode_view(message) == decoded_startup(line@),
{
    match parse_object(line) {
        Ok(members) => Ok(startup_message_of(&members)),
        Err(reason) => Err(reason),
    }
}

/// Decodes one line of a worker's output.
pub fn decode(line: &str) -> (message: Result<Option<ProtocolMessage>, String>)
    ensures
        decode_view(message) == decoded(line@),
{
    match parse_object(line) {
        Ok(members) => Ok(message_of(&members)),
        Err(reason) => Err(reason),
    }
}

/// The request line for a prompt that is already a JSON string literal.
pub fn frame_request(quoted_prompt: &str, config: &LLMConfig) -> (line: String)
    ensures
        line@ == request_line(
            quoted_prompt@,
            config.temperature@,
            config.top_p@,
            config.max_tokens as nat,
        ),
        !quoted_prompt@.contains('\n') ==> is_single_line(line@),
{
    let mut line = String::from_str("{\"prompt\":");
    line.append(quoted_prompt);
    line.append(",\"temperature\":");
    line.append(config.temperature.as_str());
    line.append(",\"top_p\":");
    line.append(config.top_p.as_str());
    line.append(",\"max_tokens\":");
    push_decimal(&mut line, config.max_tokens as u64);
    let ghost body = line@;
    line.append("}\n");
    proof {
        let digits = decimal(config.max_tokens as nat);
        assert(line@ =~= request_line(
            quoted_prompt@,
            config.temperature@,
            config.top_p@,
            config.max_tokens as nat,
        ));
        reveal_strlit("{\"prompt\":");
        reveal_strlit(",\"temperature\":");
        reveal_strlit(",\"top_p\":");
        reveal_strlit(",\"max_tokens\":");
        reveal_strlit("}\n");
        lemma_decimal_has_no_line_feed(config.temperature@);
        lemma_decimal_has_no_line_feed(config.top_p@);
        lemma_decimal_is_digits(config.max_tokens as nat);
        if !quoted_prompt@.contains('\n') {
            let head = body + seq!['}'];
            assert(line@ =~= head.push('\n'));
            assert(line@.drop_last() =~= head);
            assert forall|i: int| 0 <= i < head.len() implies head[i] != '\n' by {
                let a = "{\"prompt\":"@;
                let b = quoted_prompt@;
                let c = ",\"temperature\":"@;
                let d = config.temperature@;
                let e = ",\"top_p\":"@;
                let f = config.top_p@;
                let g = ",\"max_tokens\":"@;
                assert(head =~= a + b + c + d + e + f + g + digits + seq!['}']);
                let i1 = i - a.len();
                let i2 = i1 - b.len();
                let i3 = i2 - c.len();
                let i4 = i3 - d.len();
                let i5 = i4 - e.len();
                let i6 = i5 - f.len();
                let i7 = i6 - g.len();
                if i < a.len() {
                    assert(head[i] == a[i]);
                } else if i1 < b.len() {
                    assert(head[i] == b[i1]);
                    assert(b.contains(b[i1]));
                } else if i2 < c.len() {
                    assert(head[i] == c[i2]);
                } else if i3 < d.len() {
                    assert(head[i] == d[i3]);
                    assert(d.contains(d[i3]));
                } else if i4 < e.len() {
                    assert(head[i] == e[i4]);
                } else if i5 < f.len() {
                    assert(head[i] == f[i5]);
                    assert(f.contains(f[i5]));
                } else if i6 < g.len() {
                    assert(head[i] == g[i6]);
                } else if i7 < digits.len() {
                    assert(head[i] == digits[i7]);
                } else {
                    assert(head[i] == '}');
                }
            }
        }
    }
    line
}

/// Encodes a request as the one line that is written to a worker.
pub fn encode(request: &StreamRequest) -> (line: Result<String, String>)
    ensures
        text_result_view(line) == encoded(*request),
        line matches Ok(text) ==> is_single_line(text@),
{
    match quote_text(request.prompt.as_str()) {
        Ok(quoted) => Ok(frame_request(quoted.as_str(), &request.config)),
        Err(reason) => Err(reason),
    }
}

} // verus!
