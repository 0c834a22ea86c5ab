//! Rentaneko: the verified core of a managed Simulacat Core simulator
//! lifecycle for Rust tests.
//!
//! The library holds the decisions that the lifecycle makes: the seed
//! configuration handed to the runner, the classification of the runner's
//! newline-delimited JSON events, the bounded diagnostic capture of its
//! output, the process-group signalling of the owned child, and the mapping
//! of every startup and shutdown outcome onto [`RentanekoError`]. It also
//! holds the workflow suite contract: the textual reading of the CI
//! workflows that shows each pull request runs the test suite once.

mod capture;
mod config;
mod error;
mod lifecycle;
mod process;
mod readiness;
mod signal;
mod suite;
mod text;

pub use capture::{
    append, append_chunk, first_char_boundary_at_or_after, shared_capture, snapshot,
    BoundedCapture, CaptureView, OutputCapture, SharedCapture, MAX_CAPTURED_BYTES,
    TRUNCATION_MARKER,
};
pub use config::{
    Bind, Empty, InitialState, Installation, Organization, RunnerConfig, CONFIG_FILE_NAME,
    SEED_ACCOUNT, SEED_APP_ID, SEED_INSTALLATION_ID,
};
pub use error::RentanekoError;
pub use lifecycle::{
    after_graceful_wait, base_uri_for_port, last_resort_stop, pipe_unavailable, readiness_result,
    shutdown_error_with_context, spawn_failure, AfterKill, GracefulStop, GracefulWait,
    KillPending, ReadinessWait, ReapPending, Teardown, TeardownStep,
};
pub use process::{
    exit_status_result, force_kill_process_group, force_kill_result, process_group_pid,
    signal_process_group, terminate_process_group,
};
pub use signal::{GroupSignal, Signalled};
pub use readiness::{
    classify_event, classify_line, error_message, is_loopback_endpoint, is_supported_readiness,
    listening_port, listening_port_from_fields, parse_listening_port, str_equals,
    ReadinessOutcome, ReadinessScan, DEFAULT_ERROR_MESSAGE,
};
pub use suite::{
    command_text, job_header, job_is_conditional, jobs, run_command, runs_suite, segments,
    step_is_conditional, steps, suite_job, suite_runs, Job, SuiteRun, Workflow, SUITE_JOB,
    SUITE_WORKFLOW,
};
pub use text::{
    chars_contain, chars_of, chars_start_with, chars_trim, chars_trim_end, chars_trim_start,
    split_lines, split_words,
};
