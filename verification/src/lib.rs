//! # Talos
//!
//! Invokes the Google Antigravity `agy` CLI as a subprocess and makes sense of
//! the structured results.
//!
//! This crate decides what is run, what the output means and when a stream of
//! events ends. It performs no process, file or network I/O of its own: it
//! says what to spawn, probe, read and write, and takes what came of it.
//!
//! - [`config`]: the settings, how a file fills them in, where it is looked for
//! - [`request`] and [`response`]: what is asked and what comes back
//! - [`command`]: the command line of an invocation, in each execution mode
//! - [`client`]: which requests are taken on, and what follows when the
//!   process has ended
//! - [`stream`]: the events of a running process
//! - [`transcript`]: the response in a transcript file, and the conversation ID
//!   in the output
//! - [`permits`]: how many invocations run at once
//! - [`pid_guard`]: the record of a running process
//! - the modules that end in `_laws`: what holds of all these as a whole
//! - [`error`], [`json`], [`paths`] and [`text`]: what the others build on

pub mod client;
pub mod client_laws;
pub mod command;
pub mod command_laws;
pub mod config;
pub mod config_laws;
pub mod error;
pub mod json;
pub mod json_laws;
pub mod paths;
pub mod permits;
pub mod pid_guard;
pub mod reading_laws;
pub mod request;
pub mod request_laws;
pub mod response;
pub mod stream;
pub mod stream_laws;
pub mod text;
pub mod text_laws;
pub mod transcript;
pub mod transcript_laws;
pub mod turn_laws;

pub use client::Talos;
pub use config::TalosConfig;
pub use error::TalosError;
pub use request::{EnvVars, Model, TalosRequest};
pub use response::TalosResponse;
pub use stream::{TalosEvent, TalosStream};
