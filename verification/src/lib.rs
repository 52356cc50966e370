//! Core of a desktop assistant that runs a language model in an external
//! process. Its heart is the supervisor of a long-lived inference worker: the
//! line protocol spoken over the worker's pipes, the readiness handshake, the
//! single worker slot, and the executor that routes a streaming request
//! either through the stored worker or through a disposable one-shot process.
//!
//! Everything here works on plain values. Spawning processes, reading pipes,
//! touching files and delivering events are left to the caller, which feeds
//! each line it reads to the step functions of this crate and carries out
//! what they return.
//!
//! The worker supervisor:
//! - [`protocol`]: requests and messages, and their encoding as JSON lines.
//! - [`lifecycle`]: the states a worker passes through.
//! - [`handshake`]: waiting for a fresh worker to report readiness.
//! - [`stream`]: the events of one streamed answer, line by line.
//! - [`supervisor`]: the slot that holds the worker between requests.
//! - [`fallback`]: how a one-shot process closes its stream.
//! - [`executor`]: one request from checkout to its single terminal event.
//!
//! Around it:
//! - [`config`]: generation settings.
//! - [`engine`]: the loaded model and the answers of one-shot helper runs.
//! - [`locator`]: which interpreter and script to run.
//! - [`models`]: which files pass for a model.
//! - [`users`]: the rules of the list of users.
//! - [`vector_store`]: the state of the vector store.
//! - [`bundled`]: the defaults that ship with the application.
//! - [`cache`]: where cached responses are kept.
//! - [`json`], [`text`]: reading JSON objects and working on characters.

pub mod bundled;
pub mod cache;
pub mod config;
pub mod engine;
pub mod executor;
pub mod fallback;
pub mod handshake;
pub mod json;
pub mod lifecycle;
pub mod locator;
pub mod models;
pub mod protocol;
pub mod stream;
pub mod supervisor;
pub mod text;
pub mod users;
pub mod vector_store;
