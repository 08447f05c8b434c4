//! Usage monitor core for Ollama Cloud API keys: reset-time estimation, the
//! per-key failure state machine, log merging and the small command rules.
pub mod ollama;
pub mod calendar;
pub mod reset;
pub mod text;
pub mod types;
pub mod state;
pub mod history;
pub mod order;
pub mod store;
pub mod runtimes;
pub mod poller;
pub mod config;
pub mod commands;
