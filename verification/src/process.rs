//! Owned-child process-group signalling and the shutdown results it leads
//! to.
//!
//! The runner is spawned as a process-group leader so that the whole owned
//! group can be signalled together: a group is addressed by the negated
//! process id of its leader. None of these helpers signal a process that
//! the simulator does not own.

use crate::error::{shutdown_failed_with, RentanekoError};
use crate::signal::{send_signal, GroupSignal, Signalled};
use vstd::prelude::*;

verus! {

/// The pid that `kill(2)` takes to address the process group led by the
/// process `process_group_id`: its negation, where it fits in a pid.
pub open spec fn spec_process_group_pid(process_group_id: u32) -> Option<i32> {
    if process_group_id <= i32::MAX {
        Some((-process_group_id) as i32)
    } else {
        None
    }
}

/// The process group that signalling the child `maybe_child_id` addresses.
pub open spec fn signal_target(maybe_child_id: Option<u32>) -> Option<i32> {
    match maybe_child_id {
        Some(id) => spec_process_group_pid(id),
        None => None,
    }
}

/// Maps the direct child's group id onto the negative pid `kill(2)` uses to
/// target the entire process group.
pub fn process_group_pid(process_group_id: u32) -> (pid: Option<i32>)
    ensures
        pid == spec_process_group_pid(process_group_id),
{
    if process_group_id <= 2147483647 {
        let leader = process_group_id as i32;
        Some(-leader)
    } else {
        None
    }
}

/// The receipt of signalling the process group of the child
/// `maybe_child_id` with `signal`: `kill(2)` is handed the group's pid and
/// the signal when the child is still known and addressable, and is not
/// called otherwise.
pub open spec fn signalled_group(
    maybe_child_id: Option<u32>,
    signal: GroupSignal,
    sent: Option<Signalled>,
) -> bool {
    match signal_target(maybe_child_id) {
        Some(target) => match sent {
            Some(receipt) => receipt@ == (target, signal),
            None => false,
        },
        None => sent is None,
    }
}

/// A receipt of signalling a group records the signal that was requested
/// and the group's pid, and there is one exactly when the child is known
/// and addressable: a graceful stop is never recorded as a kill, nor a
/// kill as a graceful stop.
pub proof fn law_receipt_records_the_request(
    maybe_child_id: Option<u32>,
    signal: GroupSignal,
    sent: Option<Signalled>,
)
    requires
        signalled_group(maybe_child_id, signal, sent),
    ensures
        sent matches Some(receipt) ==> receipt@.1 == signal,
        sent matches Some(receipt) ==> maybe_child_id matches Some(id) && id <= i32::MAX
            && receipt@.0 == -id,
        sent is None <==> (maybe_child_id is None || maybe_child_id->0 > i32::MAX),
{
}

/// Sends `signal` to the process group of the child `maybe_child_id`, if
/// the child is still known, and returns the receipt of the call.
pub fn signal_process_group(maybe_child_id: Option<u32>, signal: GroupSignal) -> (sent: Option<
    Signalled,
>)
    ensures
        signalled_group(maybe_child_id, signal, sent),
        sent matches Some(receipt) ==> receipt@.1 == signal && Some(receipt@.0)
            == signal_target(maybe_child_id),
{
    let target = match maybe_child_id {
        Some(id) => process_group_pid(id),
        None => None,
    };
    match target {
        Some(pid) => Some(send_signal(pid, signal)),
        None => None,
    }
}

/// Requests a graceful stop of the owned process group with `SIGTERM`.
pub fn terminate_process_group(maybe_child_id: Option<u32>) -> (sent: Option<Signalled>)
    ensures
        signalled_group(maybe_child_id, GroupSignal::Terminate, sent),
        sent matches Some(receipt) ==> receipt@.1 == GroupSignal::Terminate,
{
    signal_process_group(maybe_child_id, GroupSignal::Terminate)
}

/// Force-kills the owned process group with `SIGKILL`.
pub fn force_kill_process_group(maybe_child_id: Option<u32>) -> (sent: Option<Signalled>)
    ensures
        signalled_group(maybe_child_id, GroupSignal::Kill, sent),
        sent matches Some(receipt) ==> receipt@.1 == GroupSignal::Kill,
{
    signal_process_group(maybe_child_id, GroupSignal::Kill)
}

/// Maps a reaped child's exit status onto the shutdown result. A status
/// that is not a success (a non-zero exit code, or termination by a
/// signal) means the runner failed to shut down cleanly, so it is
/// surfaced rather than swallowed.
pub fn exit_status_result(success: bool, status: &str) -> (result: Result<(), RentanekoError>)
    ensures
        success ==> result is Ok,
        !success ==> shutdown_failed_with(result, "runner exited with failure status: "@ + status@),
{
    if success {
        Ok(())
    } else {
        let mut message = "runner exited with failure status: ".to_owned();
        message.append(status);
        Err(RentanekoError::ShutdownFailed { message })
    }
}

/// The result of force-killing the owned process group and reaping the
/// direct child after graceful shutdown failed with `graceful_error`: the
/// failure to start the kill, if any, comes first; then the failure to
/// reap the child, if any.
pub fn force_kill_result(
    graceful_error: &str,
    force_kill_error: Option<String>,
    reap_error: Option<String>,
) -> (result: Result<(), RentanekoError>)
    ensures
        force_kill_error matches Some(kill) ==> shutdown_failed_with(
            result,
            "graceful shutdown failed: "@ + graceful_error@ + "; force-kill failed: "@ + kill@,
        ),
        force_kill_error is None ==> (reap_error matches Some(reap) ==> shutdown_failed_with(
            result,
            "graceful shutdown failed: "@ + graceful_error@ + "; force-kill reaping failed: "@
                + reap@,
        )),
        force_kill_error is None && reap_error is None ==> result is Ok,
{
    match (force_kill_error, reap_error) {
        (Some(kill), _) => {
            let mut message = "graceful shutdown failed: ".to_owned();
            message.append(graceful_error);
            message.append("; force-kill failed: ");
            message.append(kill.as_str());
            Err(RentanekoError::ShutdownFailed { message })
        },
        (None, Some(reap)) => {
            let mut message = "graceful shutdown failed: ".to_owned();
            message.append(graceful_error);
            message.append("; force-kill reaping failed: ");
            message.append(reap.as_str());
            Err(RentanekoError::ShutdownFailed { message })
        },
        (None, None) => Ok(()),
    }
}

} // verus!
