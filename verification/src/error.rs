//! Error types for the Talos crate.
//!
//! [`TalosError`] covers every failure mode that can occur when invoking
//! `agy`, parsing its output, or managing concurrency limits.

use vstd::prelude::*;
use vstd::string::*;

use crate::text;

verus! {

/// The std type `std::io::Error`, carried from where an operation failed.
#[verifier::external_type_specification]
#[verifier::external_body]
pub struct ExIoError(std::io::Error);

/// The outside type `toml::de::Error`, why a text is not a configuration.
#[verifier::external_type_specification]
#[verifier::external_body]
pub struct ExTomlError(toml::de::Error);

/// Enumerates all errors that can occur within the Talos crate.
#[derive(Debug)]
pub enum TalosError {
    /// The `agy` binary was not found on `$PATH` or at the configured location.
    AgyNotFound,
    /// The `agy` process exceeded the configured timeout.
    Timeout,
    /// The `agy` process exited with a non-zero status code.
    ProcessFailed {
        /// The non-zero exit code returned by the process.
        exit_code: i32,
        /// Captured stderr output from the process.
        stderr: String,
    },
    /// The expected transcript file was not found on disk.
    TranscriptNotFound {
        /// The filesystem path where the transcript was expected.
        path: String,
    },
    /// Failed to parse transcript JSONL or other structured output.
    ParseError(String),
    /// The concurrency semaphore has no available permits.
    ConcurrencyLimit,
    /// Configuration file is missing, malformed, or contains invalid values.
    ConfigError(String),
    /// An underlying I/O error occurred.
    IoError(std::io::Error),
}

impl TalosError {
    /// Whether `text` is what the error displays.
    pub open spec fn displays(self, text: Seq<char>) -> bool {
        match self {
            TalosError::AgyNotFound => text
                == "agy binary not found — ensure it is installed and on $PATH"@,
            TalosError::Timeout => text == "agy invocation timed out after the configured duration"@,
            TalosError::ProcessFailed { exit_code, stderr } => text
                == "agy process failed (exit code "@ + text::signed_decimal(exit_code as int) + "): "@
                + stderr@,
            TalosError::TranscriptNotFound { path } => text == "transcript not found at: "@ + path@,
            TalosError::ParseError(what) => text == "parse error: "@ + what@,
            TalosError::ConcurrencyLimit => text
                == "concurrency limit reached — too many concurrent invocations"@,
            TalosError::ConfigError(what) => text == "configuration error: "@ + what@,
            TalosError::IoError(error) => exists|what: String| #[trigger]
                to_string_from_display_ensures(&error, what) && text == "I/O error: "@ + what@,
        }
    }

    /// What the error displays.
    pub fn message(&self) -> (text: String)
        ensures
            self.displays(text@),
    {
        match self {
            TalosError::AgyNotFound => {
                "agy binary not found — ensure it is installed and on $PATH".to_owned()
            },
            TalosError::Timeout => {
                "agy invocation timed out after the configured duration".to_owned()
            },
            TalosError::ProcessFailed { exit_code, stderr } => {
                "agy process failed (exit code ".to_owned().concat(
                    text::signed_text(*exit_code).as_str(),
                ).concat("): ").concat(stderr.as_str())
            },
            TalosError::TranscriptNotFound { path } => {
                "transcript not found at: ".to_owned().concat(path.as_str())
            },
            TalosError::ParseError(what) => "parse error: ".to_owned().concat(what.as_str()),
            TalosError::ConcurrencyLimit => {
                "concurrency limit reached — too many concurrent invocations".to_owned()
            },
            TalosError::ConfigError(what) => {
                "configuration error: ".to_owned().concat(what.as_str())
            },
            TalosError::IoError(error) => {
                let what = error.to_string();
                "I/O error: ".to_owned().concat(what.as_str())
            },
        }
    }
}

impl vstd::std_specs::convert::FromSpecImpl<std::io::Error> for TalosError {
    open spec fn obeys_from_spec() -> bool {
        true
    }

    open spec fn from_spec(err: std::io::Error) -> Self {
        TalosError::IoError(err)
    }
}

impl From<std::io::Error> for TalosError {
    fn from(err: std::io::Error) -> (error: Self) {
        TalosError::IoError(err)
    }
}

/// The message is only related to the error, so the conversion states that
/// relation itself and leaves the functional form unused.
impl vstd::std_specs::convert::FromSpecImpl<serde_json::Error> for TalosError {
    open spec fn obeys_from_spec() -> bool {
        false
    }

    open spec fn from_spec(err: serde_json::Error) -> Self {
        arbitrary()
    }
}

impl From<serde_json::Error> for TalosError {
    fn from(err: serde_json::Error) -> (error: Self)
        ensures
            error matches TalosError::ParseError(what) && to_string_from_display_ensures(
                &err,
                what,
            ),
    {
        TalosError::ParseError(err.to_string())
    }
}

/// The message is only related to the error, so the conversion states that
/// relation itself and leaves the functional form unused.
impl vstd::std_specs::convert::FromSpecImpl<toml::de::Error> for TalosError {
    open spec fn obeys_from_spec() -> bool {
        false
    }

    open spec fn from_spec(err: toml::de::Error) -> Self {
        arbitrary()
    }
}

impl From<toml::de::Error> for TalosError {
    fn from(err: toml::de::Error) -> (error: Self)
        ensures
            error matches TalosError::ConfigError(what) && to_string_from_display_ensures(
                &err,
                what,
            ),
    {
        TalosError::ConfigError(err.to_string())
    }
}

} // verus!
