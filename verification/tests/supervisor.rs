use confidant::handshake::{Handshake, HandshakeStep};
use confidant::protocol::LineInput;
use confidant::supervisor::{Replacement, Supervisor, WorkerHandle};
use std::sync::{Arc, Mutex};

fn worker(model: &str, process: u32) -> WorkerHandle<u32> {
    WorkerHandle::new(model.to_string(), process)
}

#[test]
fn new_supervisor_is_empty() {
    let mut supervisor: Supervisor<u32> = Supervisor::new();
    assert!(!supervisor.is_occupied());
    assert_eq!(supervisor.stored_model(), None);
    assert!(supervisor.acquire("m.gguf").is_none());
}

#[test]
fn acquire_returns_any_model_and_empties_the_slot() {
    let mut supervisor = Supervisor::new();
    assert!(supervisor.release(worker("a.gguf", 7)).is_none());
    assert_eq!(supervisor.stored_model(), Some("a.gguf".to_string()));
    let handle = supervisor.acquire("other.gguf").unwrap();
    assert_eq!(handle.model, "a.gguf");
    assert_eq!(handle.process, 7);
    assert!(!supervisor.is_occupied());
    assert!(supervisor.acquire("a.gguf").is_none());
}

#[test]
fn release_makes_the_worker_available_again() {
    let mut supervisor = Supervisor::new();
    supervisor.release(worker("a.gguf", 7));
    let handle = supervisor.acquire("a.gguf").unwrap();
    supervisor.release(handle);
    assert_eq!(supervisor.acquire("a.gguf").unwrap().process, 7);
}

#[test]
fn release_hands_out_a_worker_stored_in_the_meantime() {
    let mut supervisor = Supervisor::new();
    supervisor.release(worker("a.gguf", 1));
    let displaced = supervisor.release(worker("b.gguf", 2)).unwrap();
    assert_eq!(displaced.process, 1);
    assert_eq!(supervisor.stored_model(), Some("b.gguf".to_string()));
}

#[test]
fn checkout_takes_only_a_matching_worker() {
    let mut supervisor = Supervisor::new();
    supervisor.release(worker("a.gguf", 7));
    assert!(supervisor.checkout("b.gguf").is_none());
    assert!(supervisor.checkout("A.gguf").is_none());
    assert_eq!(supervisor.stored_model(), Some("a.gguf".to_string()));
    assert_eq!(supervisor.checkout("a.gguf").unwrap().process, 7);
    assert!(!supervisor.is_occupied());
    assert!(supervisor.checkout("a.gguf").is_none());
}

#[test]
fn has_model_compares_exactly() {
    let handle = worker("/models/a.gguf", 1);
    assert!(handle.has_model("/models/a.gguf"));
    assert!(!handle.has_model("/models/a.gguf "));
    assert!(!handle.has_model("/models/./a.gguf"));
}

#[test]
fn replace_with_new_stores_a_ready_worker_and_hands_out_the_old_one() {
    let mut supervisor = Supervisor::new();
    supervisor.release(worker("old.gguf", 1));
    let ready = Handshake::new().advance(&LineInput::Line("{\"ready\":true}".to_string()));
    match supervisor.replace_with_new("new.gguf".to_string(), 2, &ready) {
        Replacement::Installed { displaced } => assert_eq!(displaced.unwrap().process, 1),
        other => panic!("not installed: {:?}", other),
    }
    let stored = supervisor.acquire("new.gguf").unwrap();
    assert_eq!((stored.model.as_str(), stored.process), ("new.gguf", 2));
}

#[test]
fn replace_with_new_after_timeout_leaves_the_slot_unmodified() {
    let mut supervisor = Supervisor::new();
    supervisor.release(worker("old.gguf", 1));
    let inputs = vec![LineInput::Line("loading\n".to_string()); 10_000];
    let timed_out = Handshake::new().run(&inputs);
    assert!(matches!(timed_out, HandshakeStep::Failed(_)));
    match supervisor.replace_with_new("new.gguf".to_string(), 2, &timed_out) {
        Replacement::Rejected { process } => assert_eq!(process, 2),
        other => panic!("not rejected: {:?}", other),
    }
    assert_eq!(supervisor.stored_model(), Some("old.gguf".to_string()));
    assert_eq!(supervisor.acquire("old.gguf").unwrap().process, 1);
}

#[test]
fn replace_with_new_on_an_empty_slot_stores_nothing_without_readiness() {
    let mut supervisor: Supervisor<u32> = Supervisor::new();
    let closed = Handshake::new().advance(&LineInput::Closed);
    assert!(matches!(
        supervisor.replace_with_new("new.gguf".to_string(), 2, &closed),
        Replacement::Rejected { process: 2 }
    ));
    let waiting = Handshake::new().advance(&LineInput::Line("log".to_string()));
    assert!(matches!(
        supervisor.replace_with_new("new.gguf".to_string(), 3, &waiting),
        Replacement::Rejected { process: 3 }
    ));
    assert!(!supervisor.is_occupied());
}

#[test]
fn of_many_callers_exactly_one_gets_the_worker() {
    let mut supervisor = Supervisor::new();
    supervisor.release(worker("a.gguf", 42));
    let shared = Arc::new(Mutex::new(supervisor));
    let mut results: Vec<Option<WorkerHandle<u32>>> = Vec::new();
    for _ in 0..16 {
        let caller = Arc::clone(&shared);
        results.push(caller.lock().unwrap().acquire("a.gguf"));
    }
    let winners: Vec<&WorkerHandle<u32>> = results.iter().flatten().collect();
    assert_eq!(winners.len(), 1);
    assert_eq!(winners[0].process, 42);
    assert_eq!(results.iter().filter(|r| r.is_none()).count(), 15);
    assert!(!shared.lock().unwrap().is_occupied());
}
