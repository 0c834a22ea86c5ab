//! The decisions of the simulator lifecycle: what startup reports for each
//! way the readiness wait can end, how the base URI is formed from the
//! reported port, what teardown does after the graceful wait, and how a
//! shutdown failure carries the captured diagnostics.

use crate::error::{shutdown_failed_with, RentanekoError};
use crate::process::{
    force_kill_process_group, force_kill_result, signalled_group, terminate_process_group,
};
use crate::readiness::{Readiness, ReadinessOutcome};
use crate::signal::{GroupSignal, Signalled};
use vstd::prelude::*;

verus! {

/// The decimal digit `d`.
pub open spec fn digit_char(d: nat) -> char {
    ((48 + d) as u32) as char
}

/// The decimal representation of `n`, without leading zeros.
pub open spec fn decimal(n: nat) -> Seq<char>
    decreases n,
{
    if n < 10 {
        seq![digit_char(n)]
    } else {
        decimal(n / 10).push(digit_char(n % 10))
    }
}

/// Whether `c` is one of the decimal digits `0` to `9`.
pub open spec fn is_decimal_digit(c: char) -> bool {
    48 <= (c as u32) <= 57
}

/// The number a string of decimal digits reads as, most significant digit
/// first: the digit `c` counts `c - '0'`.
pub open spec fn digits_value(digits: Seq<char>) -> int
    decreases digits.len(),
{
    if digits.len() == 0 {
        0
    } else {
        digits_value(digits.drop_last()) * 10 + ((digits.last() as u32) - 48)
    }
}

/// The decimal representation of a number reads back as that number: it
/// is a non-empty string of decimal digits, without a leading zero unless
/// the number is zero, whose value is the number.
pub proof fn law_decimal_reads_back(n: nat)
    ensures
        decimal(n).len() > 0,
        forall|k: int| 0 <= k < decimal(n).len() ==> is_decimal_digit(#[trigger] decimal(n)[k]),
        digits_value(decimal(n)) == n,
        n > 0 ==> decimal(n)[0] != '0',
    decreases n,
{
    if n < 10 {
        assert(decimal(n) == seq![digit_char(n)]);
        assert(decimal(n).drop_last() =~= Seq::<char>::empty());
        assert((digit_char(n) as u32) == 48 + n);
        assert(digits_value(Seq::<char>::empty()) == 0);
        assert(digits_value(decimal(n)) == digits_value(decimal(n).drop_last()) * 10 + ((
        decimal(n).last() as u32) - 48));
    } else {
        law_decimal_reads_back(n / 10);
        let d = (n % 10) as nat;
        assert((digit_char(d) as u32) == 48 + d);
        assert(decimal(n).drop_last() =~= decimal(n / 10));
        assert(decimal(n).last() == digit_char(d));
        assert(digits_value(decimal(n)) == digits_value(decimal(n / 10)) * 10 + d);
        assert(n == (n / 10) * 10 + n % 10) by (nonlinear_arith);
        assert(decimal(n)[0] == decimal(n / 10)[0]);
    }
}

/// The base URI of a runner reads back to its port: it is the loopback
/// prefix followed by a string of decimal digits whose value is the port.
pub proof fn law_base_uri_reads_back(port: u16)
    ensures
        ({
            let uri = spec_base_uri(port);
            let prefix = "http://127.0.0.1:"@;
            let digits = uri.subrange(prefix.len() as int, uri.len() as int);
            &&& prefix.len() < uri.len()
            &&& uri.subrange(0, prefix.len() as int) == prefix
            &&& forall|k: int| 0 <= k < digits.len() ==> is_decimal_digit(#[trigger] digits[k])
            &&& digits_value(digits) == port
        }),
{
    law_decimal_reads_back(port as nat);
    let uri = spec_base_uri(port);
    let prefix = "http://127.0.0.1:"@;
    assert(uri.subrange(0, prefix.len() as int) =~= prefix);
    assert(uri.subrange(prefix.len() as int, uri.len() as int) =~= decimal(port as nat));
}

/// The base URI of a runner listening on `port` of the loopback host.
pub open spec fn spec_base_uri(port: u16) -> Seq<char> {
    "http://127.0.0.1:"@ + decimal(port as nat)
}

/// Returns the text of the decimal digit `d`.
fn digit_text(d: u16) -> (text: &'static str)
    requires
        d < 10,
    ensures
        text@ == seq![digit_char(d as nat)],
{
    proof {
        reveal_strlit("0");
        reveal_strlit("1");
        reveal_strlit("2");
        reveal_strlit("3");
        reveal_strlit("4");
        reveal_strlit("5");
        reveal_strlit("6");
        reveal_strlit("7");
        reveal_strlit("8");
        reveal_strlit("9");
    }
    match d {
        0 => "0",
        1 => "1",
        2 => "2",
        3 => "3",
        4 => "4",
        5 => "5",
        6 => "6",
        7 => "7",
        8 => "8",
        _ => "9",
    }
}

/// Appends the decimal representation of `n` to `text`.
fn append_decimal(text: &mut String, n: u16)
    ensures
        final(text)@ == old(text)@ + decimal(n as nat),
    decreases n,
{
    if n >= 10 {
        append_decimal(text, n / 10);
    }
    text.append(digit_text(n % 10));
    proof {
        if n >= 10 {
            assert(old(text)@ + decimal(n as nat) =~= old(text)@ + decimal((n / 10) as nat) + seq![
                digit_char((n % 10) as nat),
            ]);
        } else {
            assert(decimal(n as nat) == seq![digit_char(n as nat)]);
        }
    }
}

/// Returns the base URI of a runner listening on `port` of the loopback
/// host.
pub fn base_uri_for_port(port: u16) -> (uri: String)
    ensures
        uri@ == spec_base_uri(port),
{
    let mut uri = "http://127.0.0.1:".to_owned();
    append_decimal(&mut uri, port);
    uri
}

/// Returns the error for a standard I/O stream of the runner that was not
/// piped.
pub fn pipe_unavailable(stream: &str) -> (error: RentanekoError)
    ensures
        error.is_spawn_failed_with("runner "@ + stream@ + " was not piped"@),
{
    let mut message = "runner ".to_owned();
    message.append(stream);
    message.append(" was not piped");
    RentanekoError::RunnerSpawnFailed { message }
}

/// Returns the error for a runner that could not be spawned: a missing
/// executable means `bun` is unavailable; any other failure is reported
/// with its description `detail`.
pub fn spawn_failure(source: std::io::Error, not_found: bool, detail: &str) -> (error:
    RentanekoError)
    ensures
        not_found ==> error == (RentanekoError::BunUnavailable { source }),
        !not_found ==> error.is_spawn_failed_with("failed to spawn the runner: "@ + detail@),
{
    if not_found {
        RentanekoError::BunUnavailable { source }
    } else {
        let mut message = "failed to spawn the runner: ".to_owned();
        message.append(detail);
        RentanekoError::RunnerSpawnFailed { message }
    }
}

/// How the wait for the readiness outcome ended.
#[derive(Debug)]
pub enum ReadinessWait {
    /// The stdout scan reported `outcome`, with `stdout` the rendering of
    /// the bounded stdout captured up to and including the reporting line.
    Reported { outcome: ReadinessOutcome, stdout: String },
    /// The scan ended without reporting one.
    Closed,
    /// The startup timeout elapsed first.
    TimedOut,
}

/// The abstract value of a [`ReadinessWait`].
pub enum ReadinessWaitView {
    Reported(Readiness, Seq<char>),
    Closed,
    TimedOut,
}

impl View for ReadinessWait {
    type V = ReadinessWaitView;

    open spec fn view(&self) -> ReadinessWaitView {
        match self {
            ReadinessWait::Reported { outcome, stdout } => ReadinessWaitView::Reported(
                outcome@,
                stdout@,
            ),
            ReadinessWait::Closed => ReadinessWaitView::Closed,
            ReadinessWait::TimedOut => ReadinessWaitView::TimedOut,
        }
    }
}

/// What startup reports when the readiness wait ended as `wait`, with
/// `stderr` the captured standard error of the runner and `config_path` the
/// path of its configuration, when one was written.
pub open spec fn startup_result(
    wait: ReadinessWaitView,
    stderr: Seq<char>,
    config_path: Option<Seq<char>>,
    result: Result<u16, RentanekoError>,
) -> bool {
    match wait {
        ReadinessWaitView::Reported(Readiness::Port(port), _) => result == Ok::<u16, RentanekoError>(
            port,
        ),
        ReadinessWaitView::Reported(Readiness::ErrorEvent(text), _) => match result {
            Err(RentanekoError::RunnerErrorEvent { message }) => message@ == text,
            _ => false,
        },
        ReadinessWaitView::Reported(Readiness::Malformed(text), stdout) => match result {
            Err(RentanekoError::MalformedReadinessEvent { line, output }) => line@ == text
                && output@ == stdout,
            _ => false,
        },
        ReadinessWaitView::Reported(Readiness::Eof, _) | ReadinessWaitView::Closed => match result {
            Err(RentanekoError::RunnerExitedBeforeReady { stderr: captured, config_path: path }) =>
                captured@ == stderr && crate::readiness::text_view(path) == config_path,
            _ => false,
        },
        ReadinessWaitView::TimedOut => match result {
            Err(RentanekoError::ReadinessTimeout { stderr: captured }) => captured@ == stderr,
            _ => false,
        },
    }
}

/// Maps the end of the readiness wait onto the startup result: the port of
/// a valid readiness event, or the error that explains why none came. A
/// malformed event is reported with the stdout that preceded it, and a
/// runner that exited before readiness with its captured stderr and the
/// path of its configuration.
pub fn readiness_result(wait: ReadinessWait, stderr: String, config_path: Option<String>) -> (result:
    Result<u16, RentanekoError>)
    ensures
        startup_result(wait@, stderr@, crate::readiness::text_view(config_path), result),
{
    match wait {
        ReadinessWait::Reported { outcome: ReadinessOutcome::Port(port), .. } => Ok(port),
        ReadinessWait::Reported { outcome: ReadinessOutcome::ErrorEvent(message), .. } => Err(
            RentanekoError::RunnerErrorEvent { message },
        ),
        ReadinessWait::Reported { outcome: ReadinessOutcome::Malformed(line), stdout } => Err(
            RentanekoError::MalformedReadinessEvent { line, output: stdout },
        ),
        ReadinessWait::Reported { outcome: ReadinessOutcome::Eof, .. } | ReadinessWait::Closed => Err(
            RentanekoError::RunnerExitedBeforeReady { stderr, config_path },
        ),
        ReadinessWait::TimedOut => Err(RentanekoError::ReadinessTimeout { stderr }),
    }
}

/// How the bounded graceful wait for the runner's exit ended.
#[derive(Debug)]
pub enum GracefulWait {
    /// The runner exited; `status` describes its exit status.
    Exited { success: bool, status: String },
    /// Waiting for the runner failed with `error`.
    WaitFailed { error: String },
    /// The shutdown timeout elapsed first.
    TimedOut,
}

/// What teardown does after the graceful wait.
#[derive(Debug)]
pub enum TeardownStep {
    /// The runner exited: teardown ends with this result once the rest of
    /// the owned group is cleaned up.
    Finished(Result<(), RentanekoError>),
    /// The group is to be force-killed and the child reaped, because
    /// graceful shutdown failed for `reason`.
    ForceKill { reason: String },
}

/// The reason recorded when the graceful wait times out.
pub open spec fn graceful_timeout_reason() -> Seq<char> {
    "graceful shutdown timed out"@
}

/// Decides the next teardown step after the graceful wait: an exit decides
/// the result, with its status surfaced when it is not a success; a failed
/// or timed-out wait falls back to force-killing the whole group and
/// reaping the direct child.
pub fn after_graceful_wait(wait: GracefulWait) -> (step: TeardownStep)
    ensures
        match wait {
            GracefulWait::Exited { success, status } => match step {
                TeardownStep::Finished(result) => (success ==> result is Ok) && (!success
                    ==> shutdown_failed_with(
                    result,
                    "runner exited with failure status: "@ + status@,
                )),
                _ => false,
            },
            GracefulWait::WaitFailed { error } => match step {
                TeardownStep::ForceKill { reason } => reason@ == error@,
                _ => false,
            },
            GracefulWait::TimedOut => match step {
                TeardownStep::ForceKill { reason } => reason@ == graceful_timeout_reason(),
                _ => false,
            },
        },
{
    match wait {
        GracefulWait::Exited { success, status } => TeardownStep::Finished(
            crate::process::exit_status_result(success, status.as_str()),
        ),
        GracefulWait::WaitFailed { error } => TeardownStep::ForceKill { reason: error },
        GracefulWait::TimedOut => TeardownStep::ForceKill {
            reason: "graceful shutdown timed out".to_owned(),
        },
    }
}

/// Enriches a shutdown failure with the bounded captured stderr for
/// diagnostics, leaving other errors untouched.
pub fn shutdown_error_with_context(error: RentanekoError, stderr: &str) -> (enriched:
    RentanekoError)
    ensures
        match error {
            RentanekoError::ShutdownFailed { message } => enriched.is_shutdown_failed_with(
                message@ + "; captured stderr: "@ + stderr@,
            ),
            _ => enriched == error,
        },
{
    match error {
        RentanekoError::ShutdownFailed { message } => {
            let mut message = message;
            message.append("; captured stderr: ");
            message.append(stderr);
            RentanekoError::ShutdownFailed { message }
        },
        other => other,
    }
}

/// The graceful stop of the runner: stdin is closed and the owned group was
/// asked to stop with `SIGTERM`; the runner's exit is awaited next.
#[derive(Debug)]
pub struct GracefulStop {
    child_id: Option<u32>,
}

impl View for GracefulStop {
    type V = Option<u32>;

    closed spec fn view(&self) -> Option<u32> {
        self.child_id
    }
}

/// What teardown does after the graceful wait. Either way `SIGKILL` went
/// to the owned group, as `sent` records, so that no descendant of the
/// runner outlives teardown.
#[derive(Debug)]
pub enum Teardown {
    /// The runner exited and the rest of its group was killed: teardown
    /// ends with `result`.
    Finished { result: Result<(), RentanekoError>, sent: Option<Signalled> },
    /// Graceful shutdown failed and the group was killed: the direct child
    /// is to be killed and reaped next.
    ForceKill { pending: KillPending, sent: Option<Signalled> },
}

impl Teardown {
    /// The receipt of the `SIGKILL` sent to the owned group after the
    /// graceful wait.
    pub open spec fn group_kill(self) -> Option<Signalled> {
        match self {
            Teardown::Finished { sent, .. } => sent,
            Teardown::ForceKill { sent, .. } => sent,
        }
    }
}

/// The forced stop of the runner once `SIGKILL` went to its group: the
/// direct child is to be killed next. The reason graceful shutdown failed
/// is kept for the error.
#[derive(Debug)]
pub struct KillPending {
    reason: String,
}

impl View for KillPending {
    type V = Seq<char>;

    closed spec fn view(&self) -> Seq<char> {
        self.reason@
    }
}

/// What the forced stop does once the kill of the direct child was asked.
#[derive(Debug)]
pub enum AfterKill {
    /// The forced stop ends with this result.
    Finished(Result<(), RentanekoError>),
    /// The direct child is to be reaped next.
    Reap(ReapPending),
}

/// The forced stop of the runner once the kill of the direct child was
/// started: the child is to be reaped next.
#[derive(Debug)]
pub struct ReapPending {
    reason: String,
}

impl View for ReapPending {
    type V = Seq<char>;

    closed spec fn view(&self) -> Seq<char> {
        self.reason@
    }
}

impl GracefulStop {
    /// Begins teardown of the child `maybe_child_id` (its stdin closed by
    /// the caller): asks its whole process group to stop with `SIGTERM`.
    pub fn begin(maybe_child_id: Option<u32>) -> (begun: (GracefulStop, Option<Signalled>))
        ensures
            begun.0@ == maybe_child_id,
            signalled_group(maybe_child_id, GroupSignal::Terminate, begun.1),
            begun.1 matches Some(receipt) ==> receipt@.1 == GroupSignal::Terminate,
    {
        let sent = terminate_process_group(maybe_child_id);
        (GracefulStop { child_id: maybe_child_id }, sent)
    }

    /// Decides the next teardown step after the graceful wait. In every case
    /// `SIGKILL` goes to the whole owned group, so that a descendant that
    /// ignored `SIGTERM` does not outlive the runner. An exit then ends
    /// teardown, with its status surfaced when it is not a success; a failed
    /// or timed-out wait goes on to kill and reap the direct child.
    pub fn after_wait(self, wait: GracefulWait) -> (step: Teardown)
        ensures
            signalled_group(self@, GroupSignal::Kill, step.group_kill()),
            step.group_kill() matches Some(receipt) ==> receipt@.1 == GroupSignal::Kill,
            match wait {
                GracefulWait::Exited { success, status } => match step {
                    Teardown::Finished { result, .. } => (success ==> result is Ok) && (!success
                        ==> shutdown_failed_with(
                        result,
                        "runner exited with failure status: "@ + status@,
                    )),
                    _ => false,
                },
                GracefulWait::WaitFailed { error } => match step {
                    Teardown::ForceKill { pending, .. } => pending@ == error@,
                    _ => false,
                },
                GracefulWait::TimedOut => match step {
                    Teardown::ForceKill { pending, .. } => pending@ == graceful_timeout_reason(),
                    _ => false,
                },
            },
    {
        match after_graceful_wait(wait) {
            TeardownStep::Finished(result) => {
                let sent = force_kill_process_group(self.child_id);
                Teardown::Finished { result, sent }
            },
            TeardownStep::ForceKill { reason } => {
                let (pending, sent) = KillPending::start(self.child_id, reason);
                Teardown::ForceKill { pending, sent }
            },
        }
    }
}

impl KillPending {
    /// Begins the forced stop of the child `maybe_child_id` after graceful
    /// shutdown failed for `reason`: `SIGKILL` goes to its whole process
    /// group, so that descendants die too, before the direct child is
    /// killed.
    pub fn start(maybe_child_id: Option<u32>, reason: String) -> (started: (
        KillPending,
        Option<Signalled>,
    ))
        ensures
            started.0@ == reason@,
            signalled_group(maybe_child_id, GroupSignal::Kill, started.1),
            started.1 matches Some(receipt) ==> receipt@.1 == GroupSignal::Kill,
    {
        let sent = force_kill_process_group(maybe_child_id);
        (KillPending { reason }, sent)
    }

    /// Takes the outcome of starting the kill of the direct child: a failure
    /// ends the forced stop with its error; otherwise the child is reaped
    /// next.
    pub fn kill_started(self, force_kill_error: Option<String>) -> (next: AfterKill)
        ensures
            match force_kill_error {
                Some(kill) => match next {
                    AfterKill::Finished(result) => shutdown_failed_with(
                        result,
                        "graceful shutdown failed: "@ + self@ + "; force-kill failed: "@ + kill@,
                    ),
                    _ => false,
                },
                None => match next {
                    AfterKill::Reap(pending) => pending@ == self@,
                    _ => false,
                },
            },
    {
        match force_kill_error {
            Some(kill) => AfterKill::Finished(force_kill_result(self.reason.as_str(), Some(kill), None)),
            None => AfterKill::Reap(ReapPending { reason: self.reason }),
        }
    }
}

impl ReapPending {
    /// Takes the outcome of reaping the direct child and ends the forced
    /// stop: `Ok` when the child was reaped, the failure otherwise.
    pub fn reaped(self, reap_error: Option<String>) -> (result: Result<(), RentanekoError>)
        ensures
            match reap_error {
                Some(reap) => shutdown_failed_with(
                    result,
                    "graceful shutdown failed: "@ + self@ + "; force-kill reaping failed: "@ + reap@,
                ),
                None => result is Ok,
            },
    {
        force_kill_result(self.reason.as_str(), None, reap_error)
    }
}

/// The last-resort stop of the child `maybe_child_id` when its handle is
/// dropped without teardown (its stdin closed by the caller): `SIGTERM` and
/// then `SIGKILL` to its whole process group, so that no descendant keeps
/// running. It neither waits nor reaps.
pub fn last_resort_stop(maybe_child_id: Option<u32>) -> (sent: (Option<Signalled>, Option<Signalled>))
    ensures
        signalled_group(maybe_child_id, GroupSignal::Terminate, sent.0),
        signalled_group(maybe_child_id, GroupSignal::Kill, sent.1),
        sent.0 matches Some(receipt) ==> receipt@.1 == GroupSignal::Terminate,
        sent.1 matches Some(receipt) ==> receipt@.1 == GroupSignal::Kill,
{
    let terminated = terminate_process_group(maybe_child_id);
    let killed = force_kill_process_group(maybe_child_id);
    (terminated, killed)
}

} // verus!
