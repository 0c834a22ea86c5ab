//! Tests of process-group addressing.

use rentaneko::{
    force_kill_process_group, last_resort_stop, process_group_pid, signal_process_group, terminate_process_group,
    AfterKill, GracefulStop, GracefulWait, GroupSignal, KillPending, RentanekoError, Teardown,
};

#[test]
fn process_group_pid_negates_the_leader() {
    assert_eq!(process_group_pid(1234), Some(-1234));
    assert_eq!(process_group_pid(2_147_483_647), Some(-2_147_483_647));
    assert_eq!(process_group_pid(2_147_483_648), None);
    assert_eq!(process_group_pid(u32::MAX), None);
}

#[test]
fn signalling_without_a_child_addresses_nothing() {
    assert!(signal_process_group(None, GroupSignal::Terminate).is_none());
    assert!(signal_process_group(None, GroupSignal::Kill).is_none());
    assert!(terminate_process_group(None).is_none());
    assert!(force_kill_process_group(None).is_none());
}

#[test]
fn signalling_an_unaddressable_child_addresses_nothing() {
    assert!(signal_process_group(Some(u32::MAX), GroupSignal::Kill).is_none());
    assert!(terminate_process_group(Some(2_147_483_648)).is_none());
}

#[test]
fn teardown_of_a_reaped_child_signals_nothing() {
    let (stop, sent) = GracefulStop::begin(None);
    assert!(sent.is_none());
    match stop.after_wait(GracefulWait::TimedOut) {
        Teardown::ForceKill { pending, sent } => {
            assert!(sent.is_none());
            match pending.kill_started(None) {
                AfterKill::Reap(reap) => assert!(reap.reaped(None).is_ok()),
                other => panic!("unexpected step {other:?}"),
            }
        }
        other => panic!("unexpected step {other:?}"),
    }
}

#[test]
fn last_resort_stop_of_a_reaped_child_signals_nothing() {
    let (terminated, killed) = last_resort_stop(None);
    assert!(terminated.is_none());
    assert!(killed.is_none());
}

#[test]
fn a_clean_exit_ends_teardown_after_the_group_kill() {
    let (stop, _) = GracefulStop::begin(None);
    match stop.after_wait(GracefulWait::Exited { success: true, status: "exit status: 0".to_owned() }) {
        Teardown::Finished { result, sent } => {
            assert!(result.is_ok());
            // A reaped child leaves no group to address.
            assert!(sent.is_none());
        }
        other => panic!("unexpected step {other:?}"),
    }
}

#[test]
fn a_failed_exit_ends_teardown_with_its_status() {
    let (stop, _) = GracefulStop::begin(None);
    match stop.after_wait(GracefulWait::Exited { success: false, status: "exit status: 3".to_owned() }) {
        Teardown::Finished { result: Err(RentanekoError::ShutdownFailed { message }), sent } => {
            assert_eq!(message, "runner exited with failure status: exit status: 3");
            assert!(sent.is_none());
        }
        other => panic!("unexpected step {other:?}"),
    }
}

#[test]
fn a_failed_kill_ends_the_forced_stop() {
    let (pending, sent) = KillPending::start(None, "graceful shutdown timed out".to_owned());
    assert!(sent.is_none());
    match pending.kill_started(Some("EPERM".to_owned())) {
        AfterKill::Finished(Err(RentanekoError::ShutdownFailed { message })) => assert_eq!(
            message,
            "graceful shutdown failed: graceful shutdown timed out; force-kill failed: EPERM"
        ),
        other => panic!("unexpected step {other:?}"),
    }
}

#[test]
fn a_failed_reap_ends_the_forced_stop() {
    let (pending, _) = KillPending::start(None, "wait failed".to_owned());
    match pending.kill_started(None) {
        AfterKill::Reap(reap) => match reap.reaped(Some("ECHILD".to_owned())) {
            Err(RentanekoError::ShutdownFailed { message }) => assert_eq!(
                message,
                "graceful shutdown failed: wait failed; force-kill reaping failed: ECHILD"
            ),
            other => panic!("unexpected result {other:?}"),
        },
        other => panic!("unexpected step {other:?}"),
    }
}
