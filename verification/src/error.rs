//! Semantic error type for the simulator lifecycle.

use vstd::prelude::*;

verus! {

/// The standard I/O error carried by the failures that come from the
/// operating system.
#[verifier::external_type_specification]
#[verifier::external_body]
pub struct ExIoError(std::io::Error);

/// A failure raised while managing the Simulacat Core simulator lifecycle.
#[derive(Debug)]
#[non_exhaustive]
pub enum RentanekoError {
    /// The `bun` executable could not be found or executed.
    BunUnavailable {
        /// The underlying spawn error.
        source: std::io::Error,
    },
    /// The runner configuration file could not be written to the owned
    /// temporary directory.
    ConfigWriteFailed {
        /// The configuration path that could not be written.
        path: String,
        /// The underlying I/O error.
        source: std::io::Error,
    },
    /// The runner process could not be spawned, or its standard I/O pipes
    /// were not available after spawning.
    RunnerSpawnFailed {
        /// A human-readable description of the spawn failure.
        message: String,
    },
    /// Readiness was not observed before the startup timeout elapsed.
    ReadinessTimeout {
        /// Captured runner standard error, bounded for diagnostics.
        stderr: String,
    },
    /// The runner exited before it reported a readiness event.
    RunnerExitedBeforeReady {
        /// Captured runner standard error, bounded for diagnostics.
        stderr: String,
        /// The path of the runner configuration, when one was written.
        config_path: Option<String>,
    },
    /// A readiness-shaped line was observed but could not be parsed into a
    /// valid `listening` event.
    MalformedReadinessEvent {
        /// The offending line, retained verbatim for diagnostics.
        line: String,
        /// The bounded standard output captured up to and including the
        /// offending line, so that what preceded it is not hidden.
        output: String,
    },
    /// The runner reported a structured `error` event during startup.
    RunnerErrorEvent {
        /// The reported error message.
        message: String,
    },
    /// Graceful shutdown or forced teardown of the owned child failed.
    ShutdownFailed {
        /// A human-readable description of the shutdown failure.
        message: String,
    },
}

impl RentanekoError {
    /// Whether this is [`RentanekoError::RunnerSpawnFailed`] with message
    /// `text`.
    pub open spec fn is_spawn_failed_with(&self, text: Seq<char>) -> bool {
        match self {
            RentanekoError::RunnerSpawnFailed { message } => message@ == text,
            _ => false,
        }
    }

    /// Whether this is [`RentanekoError::ShutdownFailed`] with message
    /// `text`.
    pub open spec fn is_shutdown_failed_with(&self, text: Seq<char>) -> bool {
        match self {
            RentanekoError::ShutdownFailed { message } => message@ == text,
            _ => false,
        }
    }
}

/// Whether `result` failed with [`RentanekoError::ShutdownFailed`] and
/// message `text`.
pub open spec fn shutdown_failed_with(result: Result<(), RentanekoError>, text: Seq<char>) -> bool {
    match result {
        Err(error) => error.is_shutdown_failed_with(text),
        Ok(()) => false,
    }
}

} // verus!
