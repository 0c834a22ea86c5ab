//! Tests of the startup and shutdown decisions.

use rentaneko::{
    after_graceful_wait, base_uri_for_port, exit_status_result, force_kill_result,
    pipe_unavailable, readiness_result, shutdown_error_with_context, spawn_failure,
    GracefulWait, ReadinessOutcome, ReadinessWait, RentanekoError, TeardownStep,
};

#[test]
fn base_uri_is_formed_from_the_port() {
    assert_eq!(base_uri_for_port(50505), "http://127.0.0.1:50505");
    assert_eq!(base_uri_for_port(0), "http://127.0.0.1:0");
    assert_eq!(base_uri_for_port(9), "http://127.0.0.1:9");
    assert_eq!(base_uri_for_port(10), "http://127.0.0.1:10");
    assert_eq!(base_uri_for_port(65535), "http://127.0.0.1:65535");
}

#[test]
fn pipe_unavailable_names_the_stream() {
    match pipe_unavailable("stdin") {
        RentanekoError::RunnerSpawnFailed { message } => {
            assert_eq!(message, "runner stdin was not piped");
        }
        other => panic!("unexpected error {other:?}"),
    }
}

#[test]
fn spawn_failure_distinguishes_a_missing_executable() {
    let missing = std::io::Error::new(std::io::ErrorKind::NotFound, "no bun");
    assert!(matches!(
        spawn_failure(missing, true, "no bun"),
        RentanekoError::BunUnavailable { .. }
    ));
    let denied = std::io::Error::new(std::io::ErrorKind::PermissionDenied, "denied");
    match spawn_failure(denied, false, "denied") {
        RentanekoError::RunnerSpawnFailed { message } => {
            assert_eq!(message, "failed to spawn the runner: denied");
        }
        other => panic!("unexpected error {other:?}"),
    }
}

#[test]
fn readiness_result_maps_each_outcome() {
    assert!(matches!(
        readiness_result(
            ReadinessWait::Reported { outcome: ReadinessOutcome::Port(50505), stdout: String::new() },
            String::new(),
            None,
        ),
        Ok(50505)
    ));
    match readiness_result(
        ReadinessWait::Reported {
            outcome: ReadinessOutcome::ErrorEvent("boom".to_owned()),
            stdout: String::new(),
        },
        String::new(),
        None,
    ) {
        Err(RentanekoError::RunnerErrorEvent { message }) => assert_eq!(message, "boom"),
        other => panic!("unexpected result {other:?}"),
    }
    match readiness_result(
        ReadinessWait::Reported {
            outcome: ReadinessOutcome::Malformed("bad".to_owned()),
            stdout: "warming up\nbad\n".to_owned(),
        },
        String::new(),
        None,
    ) {
        Err(RentanekoError::MalformedReadinessEvent { line, output }) => {
            assert_eq!(line, "bad");
            assert_eq!(output, "warming up\nbad\n");
        }
        other => panic!("unexpected result {other:?}"),
    }
    match readiness_result(
        ReadinessWait::Reported { outcome: ReadinessOutcome::Eof, stdout: "out".to_owned() },
        "err".to_owned(),
        Some("/tmp/run/config.json".to_owned()),
    ) {
        Err(RentanekoError::RunnerExitedBeforeReady { stderr, config_path }) => {
            assert_eq!(stderr, "err");
            assert_eq!(config_path.as_deref(), Some("/tmp/run/config.json"));
        }
        other => panic!("unexpected result {other:?}"),
    }
    match readiness_result(ReadinessWait::Closed, "gone".to_owned(), None) {
        Err(RentanekoError::RunnerExitedBeforeReady { stderr, config_path }) => {
            assert_eq!(stderr, "gone");
            assert!(config_path.is_none());
        }
        other => panic!("unexpected result {other:?}"),
    }
    match readiness_result(ReadinessWait::TimedOut, "slow".to_owned(), None) {
        Err(RentanekoError::ReadinessTimeout { stderr }) => assert_eq!(stderr, "slow"),
        other => panic!("unexpected result {other:?}"),
    }
}

#[test]
fn exit_status_result_surfaces_failure_status() {
    assert!(exit_status_result(true, "exit status: 0").is_ok());
    match exit_status_result(false, "exit status: 3") {
        Err(RentanekoError::ShutdownFailed { message }) => {
            assert_eq!(message, "runner exited with failure status: exit status: 3");
        }
        other => panic!("unexpected result {other:?}"),
    }
}

#[test]
fn force_kill_result_reports_the_first_failure() {
    assert!(force_kill_result("graceful shutdown timed out", None, None).is_ok());
    match force_kill_result("graceful shutdown timed out", Some("EPERM".to_owned()), None) {
        Err(RentanekoError::ShutdownFailed { message }) => assert_eq!(
            message,
            "graceful shutdown failed: graceful shutdown timed out; force-kill failed: EPERM"
        ),
        other => panic!("unexpected result {other:?}"),
    }
    match force_kill_result("wait failed", None, Some("ECHILD".to_owned())) {
        Err(RentanekoError::ShutdownFailed { message }) => assert_eq!(
            message,
            "graceful shutdown failed: wait failed; force-kill reaping failed: ECHILD"
        ),
        other => panic!("unexpected result {other:?}"),
    }
}

#[test]
fn graceful_timeout_forces_a_group_kill() {
    match after_graceful_wait(GracefulWait::TimedOut) {
        TeardownStep::ForceKill { reason } => assert_eq!(reason, "graceful shutdown timed out"),
        other => panic!("unexpected step {other:?}"),
    }
    match after_graceful_wait(GracefulWait::WaitFailed { error: "interrupted".to_owned() }) {
        TeardownStep::ForceKill { reason } => assert_eq!(reason, "interrupted"),
        other => panic!("unexpected step {other:?}"),
    }
}

#[test]
fn graceful_exit_finishes_teardown() {
    assert!(matches!(
        after_graceful_wait(GracefulWait::Exited { success: true, status: "exit status: 0".to_owned() }),
        TeardownStep::Finished(Ok(()))
    ));
    match after_graceful_wait(GracefulWait::Exited {
        success: false,
        status: "exit status: 3".to_owned(),
    }) {
        TeardownStep::Finished(Err(RentanekoError::ShutdownFailed { message })) => {
            assert_eq!(message, "runner exited with failure status: exit status: 3");
        }
        other => panic!("unexpected step {other:?}"),
    }
}

#[test]
fn shutdown_error_carries_captured_stderr() {
    let error = RentanekoError::ShutdownFailed { message: "stuck".to_owned() };
    match shutdown_error_with_context(error, "last words") {
        RentanekoError::ShutdownFailed { message } => {
            assert_eq!(message, "stuck; captured stderr: last words");
        }
        other => panic!("unexpected error {other:?}"),
    }
    let other = RentanekoError::RunnerErrorEvent { message: "boom".to_owned() };
    match shutdown_error_with_context(other, "ignored") {
        RentanekoError::RunnerErrorEvent { message } => assert_eq!(message, "boom"),
        unexpected => panic!("unexpected error {unexpected:?}"),
    }
}
