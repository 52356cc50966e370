use confidant::config::LLMResponse;
use confidant::engine::{
    generate_text, helper_result, initialize_model, is_model_loaded, plan_load, Helper, LlmState,
    LoadStep, ProcessOutput,
};

fn output(success: bool, code: Option<i32>, stdout: &str, stderr: &str) -> ProcessOutput {
    ProcessOutput {
        success,
        exit_code: code,
        stdout: stdout.to_string(),
        stdout_defect: None,
        stderr: stderr.to_string(),
    }
}

#[test]
fn state_starts_without_a_model() {
    let state = LlmState::new();
    assert!(!is_model_loaded(&state));
    assert!(!state.has_loaded("/m.gguf"));
    assert_eq!(
        state.model_in_use(),
        Err("Model not initialized. Call initialize_model first.".to_string())
    );
}

#[test]
fn state_remembers_the_loaded_model() {
    let mut state = LlmState::new();
    state.set_loaded("/m.gguf".to_string());
    assert!(is_model_loaded(&state));
    assert!(state.has_loaded("/m.gguf"));
    assert!(!state.has_loaded("/other.gguf"));
    assert_eq!(state.model_in_use(), Ok("/m.gguf".to_string()));
    state.set_loaded("/other.gguf".to_string());
    assert_eq!(state.model_in_use(), Ok("/other.gguf".to_string()));
}

#[test]
fn failed_helper_is_reported_with_code_and_streams() {
    assert_eq!(
        helper_result(Helper::Llm, &output(false, Some(2), "out", "err")),
        Err("Python LLM script failed (exit code: 2): stderr: err, stdout: out".to_string())
    );
    assert_eq!(
        helper_result(Helper::VectorStore, &output(false, None, "", "killed")),
        Err("Python script failed (exit code: -1): stderr: killed, stdout: ".to_string())
    );
    assert_eq!(
        helper_result(Helper::VectorStore, &output(false, Some(-2147483648), "", "")),
        Err("Python script failed (exit code: -2147483648): stderr: , stdout: ".to_string())
    );
    assert_eq!(
        helper_result(Helper::Embeddings, &output(false, Some(1), "out", "no module")),
        Err("Python script failed: no module".to_string())
    );
}

#[test]
fn output_that_is_not_utf8_is_rejected() {
    let mut broken = output(true, Some(0), "a\u{fffd}", "");
    broken.stdout_defect = Some("invalid utf-8 sequence of 1 bytes from index 1".to_string());
    assert_eq!(
        helper_result(Helper::Llm, &broken),
        Err("Failed to parse Python output: invalid utf-8 sequence of 1 bytes from index 1".to_string())
    );
}

#[test]
fn blank_output_is_an_error_but_for_embeddings() {
    assert_eq!(
        helper_result(Helper::Llm, &output(true, Some(0), " \n\t", "warn")),
        Err("Python LLM script returned empty output. stderr: warn".to_string())
    );
    assert_eq!(
        helper_result(Helper::VectorStore, &output(true, Some(0), "", "")),
        Err("Python script returned empty output. stderr: ".to_string())
    );
    assert_eq!(helper_result(Helper::Embeddings, &output(true, Some(0), "", "")), Ok(String::new()));
}

#[test]
fn successful_helper_hands_out_its_output() {
    assert_eq!(
        helper_result(Helper::Llm, &output(true, Some(0), " {\"status\":\"success\"}\n", "log")),
        Ok(" {\"status\":\"success\"}\n".to_string())
    );
}

fn load(answer: &str) -> Result<(), String> {
    initialize_model(&mut LlmState::new(), "/m.gguf".to_string(), answer)
}

#[test]
fn load_answer_must_report_success() {
    assert_eq!(load("{\"status\":\"success\"}"), Ok(()));
    assert_eq!(
        load("{\"status\":\"error\",\"message\":\"bad file\"}"),
        Err("Failed to load model: bad file".to_string())
    );
    assert_eq!(load("{}"), Err("Failed to load model: Unknown error".to_string()));
    assert_eq!(
        load("{\"status\":true,\"message\":5}"),
        Err("Failed to load model: Unknown error".to_string())
    );
    assert_eq!(load("[]"), Err("Failed to load model: Unknown error".to_string()));
    assert_eq!(load("\"success\""), Err("Failed to load model: Unknown error".to_string()));
    let parser = serde_json::from_str::<serde_json::Value>("nope").unwrap_err().to_string();
    assert_eq!(load("nope"), Err(format!("Failed to parse Python response: {}", parser)));
}

#[test]
fn loading_updates_the_state_only_on_success() {
    let mut state = LlmState::new();
    let failed = initialize_model(&mut state, "/a.gguf".to_string(), "{\"status\":\"error\"}");
    assert!(failed.is_err());
    assert!(!is_model_loaded(&state));
    assert_eq!(initialize_model(&mut state, "/a.gguf".to_string(), "{\"status\":\"success\"}"), Ok(()));
    assert_eq!(state.model_in_use(), Ok("/a.gguf".to_string()));
    let failed = initialize_model(&mut state, "/b.gguf".to_string(), "not json");
    assert!(failed.is_err());
    assert_eq!(state.model_in_use(), Ok("/a.gguf".to_string()));
    assert_eq!(initialize_model(&mut state, "/b.gguf".to_string(), "{\"status\":\"success\"}"), Ok(()));
    assert_eq!(state.model_in_use(), Ok("/b.gguf".to_string()));
}

#[test]
fn a_model_that_is_loaded_needs_no_loading() {
    let mut state = LlmState::new();
    assert_eq!(plan_load(&state, "/a.gguf"), LoadStep::Load);
    state.set_loaded("/a.gguf".to_string());
    assert_eq!(plan_load(&state, "/a.gguf"), LoadStep::NothingToDo);
    assert_eq!(plan_load(&state, "/A.gguf"), LoadStep::Load);
    assert_eq!(plan_load(&state, "/b.gguf"), LoadStep::Load);
}

#[test]
fn generate_answer_gives_text_and_reason() {
    assert_eq!(
        generate_text("{\"status\":\"success\",\"text\":\"Hi\",\"finish_reason\":\"stop\"}"),
        Ok(LLMResponse { text: "Hi".to_string(), finish_reason: Some("stop".to_string()) })
    );
    assert_eq!(
        generate_text("{\"status\":\"success\",\"text\":\"\",\"finish_reason\":null}"),
        Ok(LLMResponse { text: String::new(), finish_reason: None })
    );
    assert_eq!(
        generate_text("{\"status\":\"success\"}"),
        Err("Invalid response format: missing text".to_string())
    );
    assert_eq!(
        generate_text("{\"status\":\"error\",\"message\":\"OOM\",\"text\":\"x\"}"),
        Err("Failed to generate text: OOM".to_string())
    );
    assert_eq!(
        generate_text("{\"text\":\"x\"}"),
        Err("Failed to generate text: Unknown error".to_string())
    );
    assert!(generate_text("").unwrap_err().starts_with("Failed to parse Python response: "));
}
