#![verifier::loop_isolation(false)]
//! A declarative, schema-defined task pipeline engine.
//!
//! A pipeline is an ordered collection of named tasks; each task is an
//! ordered list of commands drawn from a fixed set (echo, env dump, HTTP
//! call, variable interpolation, jq-style query, set-env).  The engine
//! executes commands in order, threads an evolving key-to-value
//! environment between them, captures every command's output into
//! well-known keys so later steps can consume it, and stops the pipeline
//! at the first failing command.
//!
//! Network I/O cannot happen inside the engine itself: the pipeline
//! runner is a state machine that pauses whenever an HTTP request must be
//! sent and resumes once the host hands the response back.

pub mod chars;
pub mod command;
pub mod env;
pub mod error;
pub mod http_client;
pub mod interp;
pub mod jaq;
pub mod json;
pub mod laws;
pub mod models;
pub mod parse;
pub mod pipeline;
pub mod shared;
pub mod task;
pub mod verman_schema;
