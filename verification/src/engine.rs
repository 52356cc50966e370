//! The one-shot side of the inference engine: which model is loaded, what a
//! helper process that has run to its end has to say, and what its answer
//! means.

use crate::config::LLMResponse;
use crate::json::{
    find_text, members_view, optional_text_view, parse_object, parsed_members, text_member,
    JsonMember, JsonMemberView,
};
use crate::text::{is_blank, lemma_blank_iff_trimmed_empty, signed_decimal, signed_decimal_text, trim};
use vstd::prelude::*;

verus! {

/// Which model the engine has loaded.
#[derive(Debug)]
pub struct LlmState {
    model_path: Option<String>,
    is_initialized: bool,
}

pub struct LlmStateView {
    pub model_path: Option<Seq<char>>,
    pub is_initialized: bool,
}

impl View for LlmState {
    type V = LlmStateView;

    closed spec fn view(&self) -> LlmStateView {
        LlmStateView {
            model_path: optional_text_view(self.model_path),
            is_initialized: self.is_initialized,
        }
    }
}

/// The model to generate with, or why there is none.
pub open spec fn model_in_use(state: LlmStateView) -> Result<Seq<char>, Seq<char>> {
    if !state.is_initialized {
        Err("Model not initialized. Call initialize_model first."@)
    } else {
        match state.model_path {
            Some(path) => Ok(path),
            None => Err("Model path not set"@),
        }
    }
}

impl LlmState {
    /// No model loaded.
    pub fn new() -> (state: LlmState)
        ensures
            state@ == (LlmStateView { model_path: None, is_initialized: false }),
    {
        LlmState { model_path: None, is_initialized: false }
    }

    /// Whether `model_path` is loaded already, so that loading can be skipped.
    pub fn has_loaded(&self, model_path: &str) -> (loaded: bool)
        ensures
            loaded == (self@.is_initialized && self@.model_path == Some(model_path@)),
    {
        match &self.model_path {
            Some(path) => self.is_initialized && *path == model_path.to_owned(),
            None => false,
        }
    }

    /// Records that `model_path` has been loaded.
    pub fn set_loaded(&mut self, model_path: String)
        ensures
            final(self)@ == (LlmStateView {
                model_path: Some(model_path@),
                is_initialized: true,
            }),
    {
        self.model_path = Some(model_path);
        self.is_initialized = true;
    }

    /// The model to generate with, or why there is none.
    pub fn model_in_use(&self) -> (model: Result<String, String>)
        ensures
            crate::json::text_result_view(model) == model_in_use(self@),
    {
        if !self.is_initialized {
            return Err(String::from_str("Model not initialized. Call initialize_model first."));
        }
        match &self.model_path {
            Some(path) => Ok(path.clone()),
            None => Err(String::from_str("Model path not set")),
        }
    }
}

/// Whether a model is loaded.
pub fn is_model_loaded(state: &LlmState) -> (loaded: bool)
    ensures
        loaded == state@.is_initialized,
{
    state.is_initialized
}

/// Which helper script a process ran.
#[derive(Debug, Clone, Copy, PartialEq, Eq)]
pub enum Helper {
    Llm,
    VectorStore,
    Embeddings,
}

/// What a helper process left behind when it ended.
#[derive(Debug, Clone, PartialEq, Eq)]
pub struct ProcessOutput {
    pub success: bool,
    /// None when the process was ended by a signal.
    pub exit_code: Option<i32>,
    /// The standard output, with what is not UTF-8 replaced.
    pub stdout: String,
    /// Set when the standard output was not UTF-8: what is wrong with it.
    pub stdout_defect: Option<String>,
    /// The standard error, with what is not UTF-8 replaced.
    pub stderr: String,
}

pub struct ProcessOutputView {
    pub success: bool,
    pub exit_code: Option<i32>,
    pub stdout: Seq<char>,
    pub stdout_defect: Option<Seq<char>>,
    pub stderr: Seq<char>,
}

impl View for ProcessOutput {
    type V = ProcessOutputView;

    open spec fn view(&self) -> ProcessOutputView {
        ProcessOutputView {
            success: self.success,
            exit_code: self.exit_code,
            stdout: self.stdout@,
            stdout_defect: optional_text_view(self.stdout_defect),
            stderr: self.stderr@,
        }
    }
}

/// The complaint about a helper that exited unsuccessfully.
pub open spec fn failed_helper_message(helper: Helper, output: ProcessOutputView) -> Seq<char> {
    let code = signed_decimal(
        match output.exit_code {
            Some(code) => code as int,
            None => -1,
        },
    );
    match helper {
        Helper::Llm => "Python LLM script failed (exit code: "@ + code + "): stderr: "@
            + output.stderr + ", stdout: "@ + output.stdout,
        Helper::VectorStore => "Python script failed (exit code: "@ + code + "): stderr: "@
            + output.stderr + ", stdout: "@ + output.stdout,
        Helper::Embeddings => "Python script failed: "@ + output.stderr,
    }
}

/// The complaint about a helper that wrote nothing but whitespace.
pub open spec fn empty_output_message(helper: Helper, stderr: Seq<char>) -> Seq<char> {
    match helper {
        Helper::Llm => "Python LLM script returned empty output. stderr: "@ + stderr,
        _ => "Python script returned empty output. stderr: "@ + stderr,
    }
}

/// What a finished helper has to say: its standard output, or what went
/// wrong.
///
/// A failed exit is reported with exit code and both streams. Output that is
/// not UTF-8 is rejected. The language-model and vector-store helpers must
/// write something; the embeddings helper may stay silent.
pub open spec fn helper_answer(helper: Helper, output: ProcessOutputView) -> Result<
    Seq<char>,
    Seq<char>,
> {
    if !output.success {
        Err(failed_helper_message(helper, output))
    } else if let Some(defect) = output.stdout_defect {
        Err("Failed to parse Python output: "@ + defect)
    } else if helper != Helper::Embeddings && is_blank(output.stdout) {
        Err(empty_output_message(helper, output.stderr))
    } else {
        Ok(output.stdout)
    }
}

/// What a finished helper has to say.
pub fn helper_result(helper: Helper, output: &ProcessOutput) -> (answer: Result<String, String>)
    ensures
        crate::json::text_result_view(answer) == helper_answer(helper, output@),
{
    if !output.success {
        let code: i32 = match output.exit_code {
            Some(code) => code,
            None => -1,
        };
        let mut message = match helper {
            Helper::Llm => String::from_str("Python LLM script failed (exit code: "),
            Helper::VectorStore => String::from_str("Python script failed (exit code: "),
            Helper::Embeddings => {
                let mut message = String::from_str("Python script failed: ");
                message.append(output.stderr.as_str());
                return Err(message);
            },
        };
        message.append(signed_decimal_text(code).as_str());
        message.append("): stderr: ");
        message.append(output.stderr.as_str());
        message.append(", stdout: ");
        message.append(output.stdout.as_str());
        return Err(message);
    }
    if let Some(defect) = &output.stdout_defect {
        let mut message = String::from_str("Failed to parse Python output: ");
        message.append(defect.as_str());
        return Err(message);
    }
    let silent = match helper {
        Helper::Embeddings => false,
        _ => {
            proof {
                lemma_blank_iff_trimmed_empty(output.stdout@);
            }
            trim(output.stdout.as_str()).is_empty()
        },
    };
    if silent {
        let mut message = match helper {
            Helper::Llm => String::from_str("Python LLM script returned empty output. stderr: "),
            _ => String::from_str("Python script returned empty output. stderr: "),
        };
        message.append(output.stderr.as_str());
        return Err(message);
    }
    Ok(output.stdout.clone())
}

/// Whether the answer of a helper reports success: its `status` is the text
/// "success".
pub open spec fn reports_success(members: Seq<JsonMemberView>) -> bool {
    text_member(members, "status"@) == Some("success"@)
}

/// What the helper gives as the reason of a failure: its `message`, if it is
/// a text.
pub open spec fn failure_reason(members: Seq<JsonMemberView>) -> Seq<char> {
    match text_member(members, "message"@) {
        Some(message) => message,
        None => "Unknown error"@,
    }
}

/// Whether the answer of a helper reports success.
pub fn has_succeeded(members: &Vec<JsonMember>) -> (ok: bool)
    ensures
        ok == reports_success(members_view(members@)),
{
    match find_text(members, "status") {
        Some(status) => status == String::from_str("success"),
        None => false,
    }
}

/// What the helper gives as the reason of a failure.
pub fn reason_of_failure(members: &Vec<JsonMember>) -> (reason: String)
    ensures
        reason@ == failure_reason(members_view(members@)),
{
    match find_text(members, "message") {
        Some(message) => message,
        None => String::from_str("Unknown error"),
    }
}

/// Whether the answer of a helper reports success, or why the answer cannot
/// be read.
pub open spec fn success_of(parsed: Result<Seq<JsonMemberView>, Seq<char>>) -> Result<
    bool,
    Seq<char>,
> {
    match parsed {
        Err(reason) => Err("Failed to parse Python response: "@ + reason),
        Ok(members) => Ok(reports_success(members)),
    }
}

/// What the answer to a load command means.
pub open spec fn load_outcome(parsed: Result<Seq<JsonMemberView>, Seq<char>>) -> Result<
    (),
    Seq<char>,
> {
    match parsed {
        Err(reason) => Err("Failed to parse Python response: "@ + reason),
        Ok(members) => if reports_success(members) {
            Ok(())
        } else {
            Err("Failed to load model: "@ + failure_reason(members))
        },
    }
}

pub struct LLMResponseView {
    pub text: Seq<char>,
    pub finish_reason: Option<Seq<char>>,
}

impl View for LLMResponse {
    type V = LLMResponseView;

    open spec fn view(&self) -> LLMResponseView {
        LLMResponseView {
            text: self.text@,
            finish_reason: optional_text_view(self.finish_reason),
        }
    }
}

/// What the answer to a generate command means: the generated text with the
/// reason it stopped, or what went wrong.
pub open spec fn generate_outcome(parsed: Result<Seq<JsonMemberView>, Seq<char>>) -> Result<
    LLMResponseView,
    Seq<char>,
> {
    match parsed {
        Err(reason) => Err("Failed to parse Python response: "@ + reason),
        Ok(members) => if !reports_success(members) {
            Err("Failed to generate text: "@ + failure_reason(members))
        } else {
            match text_member(members, "text"@) {
                None => Err("Invalid response format: missing text"@),
                Some(text) => Ok(
                    LLMResponseView {
                        text,
                        finish_reason: text_member(members, "finish_reason"@),
                    },
                ),
            }
        },
    }
}

pub open spec fn unit_result_view(r: Result<(), String>) -> Result<(), Seq<char>> {
    match r {
        Ok(()) => Ok(()),
        Err(reason) => Err(reason@),
    }
}

pub open spec fn response_result_view(r: Result<LLMResponse, String>) -> Result<
    LLMResponseView,
    Seq<char>,
> {
    match r {
        Ok(response) => Ok(response@),
        Err(reason) => Err(reason@),
    }
}

/// What the parsed answer to a load command means.
pub fn read_load_answer(parsed: Result<Vec<JsonMember>, String>) -> (outcome: Result<(), String>)
    ensures
        unit_result_view(outcome) == load_outcome(crate::json::parse_view(parsed)),
{
    match parsed {
        Err(reason) => {
            let mut message = String::from_str("Failed to parse Python response: ");
            message.append(reason.as_str());
            Err(message)
        },
        Ok(members) => {
            if has_succeeded(&members) {
                Ok(())
            } else {
                let mut message = String::from_str("Failed to load model: ");
                message.append(reason_of_failure(&members).as_str());
                Err(message)
            }
        },
    }
}

/// What the parsed answer to a generate command means.
pub fn read_generate_answer(parsed: Result<Vec<JsonMember>, String>) -> (outcome: Result<
    LLMResponse,
    String,
>)
    ensures
        response_result_view(outcome) == generate_outcome(crate::json::parse_view(parsed)),
{
    match parsed {
        Err(reason) => {
            let mut message = String::from_str("Failed to parse Python response: ");
            message.append(reason.as_str());
            Err(message)
        },
        Ok(members) => {
            if !has_succeeded(&members) {
                let mut message = String::from_str("Failed to generate text: ");
                message.append(reason_of_failure(&members).as_str());
                return Err(message);
            }
            match find_text(&members, "text") {
                None => Err(String::from_str("Invalid response format: missing text")),
                Some(text) => Ok(
                    LLMResponse { text, finish_reason: find_text(&members, "finish_reason") },
                ),
            }
        },
    }
}

/// Whether the parsed answer of a helper reports success.
pub fn read_status(parsed: Result<Vec<JsonMember>, String>) -> (status: Result<bool, String>)
    ensures
        crate::json::flag_result_view(status) == success_of(crate::json::parse_view(parsed)),
{
    match parsed {
        Err(reason) => {
            let mut message = String::from_str("Failed to parse Python response: ");
            message.append(reason.as_str());
            Err(message)
        },
        Ok(members) => Ok(has_succeeded(&members)),
    }
}

/// Whether the answer of a helper reports success, or why the answer cannot
/// be read.
pub fn response_succeeded(answer: &str) -> (status: Result<bool, String>)
    ensures
        crate::json::flag_result_view(status) == success_of(parsed_members(answer@)),
{
    read_status(parse_object(answer))
}

/// What a request to load a model calls for.
#[derive(Debug, Clone, Copy, PartialEq, Eq, Structural)]
pub enum LoadStep {
    /// The model is loaded already: there is nothing to do, no file to look
    /// at, no helper to run and no worker to start.
    NothingToDo,
    /// The model has to be loaded.
    Load,
}

/// What a request to load `model_path` calls for in the state `state`:
/// nothing when exactly that model is loaded, loading otherwise.
pub open spec fn load_step(state: LlmStateView, model_path: Seq<char>) -> LoadStep {
    if state.is_initialized && state.model_path == Some(model_path) {
        LoadStep::NothingToDo
    } else {
        LoadStep::Load
    }
}

/// What a request to load `model_path` calls for.
pub fn plan_load(state: &LlmState, model_path: &str) -> (step: LoadStep)
    ensures
        step == load_step(state@, model_path@),
{
    if state.has_loaded(model_path) {
        LoadStep::NothingToDo
    } else {
        LoadStep::Load
    }
}

/// Completes the loading of `model_path` with the answer of the helper to
/// the load command: the model counts as loaded if the answer reports
/// success, and the state stays as it was if it does not.
pub fn initialize_model(state: &mut LlmState, model_path: String, answer: &str) -> (outcome:
    Result<(), String>)
    ensures
        unit_result_view(outcome) == load_outcome(parsed_members(answer@)),
        outcome is Ok ==> final(state)@ == (LlmStateView {
            model_path: Some(model_path@),
            is_initialized: true,
        }),
        outcome is Err ==> final(state)@ == old(state)@,
{
    let outcome = read_load_answer(parse_object(answer));
    if outcome.is_ok() {
        state.set_loaded(model_path);
    }
    outcome
}

/// Reads the answer of the helper to a generate command.
pub fn generate_text(answer: &str) -> (outcome: Result<LLMResponse, String>)
    ensures
        response_result_view(outcome) == generate_outcome(parsed_members(answer@)),
{
    read_generate_answer(parse_object(answer))
}

} // verus!
