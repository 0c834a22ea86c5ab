//! Delivery of a signal to a process or process group, with a receipt that
//! records what was handed to `kill(2)`.
//!
//! A [`Signalled`] receipt can only be made here, by [`send_signal`], so a
//! receipt held elsewhere shows that `kill(2)` was asked to deliver exactly
//! the signal it records to exactly the pid it records. The library only
//! ever addresses process groups, by the negated id of their leader, so
//! `send_signal` takes no positive pid and no receipt records one.

use vstd::prelude::*;

verus! {

/// The signals sent to the owned process group.
#[derive(Debug, Clone, Copy)]
pub enum GroupSignal {
    /// `SIGTERM`: ask the group to stop gracefully.
    Terminate,
    /// `SIGKILL`: stop the group at once.
    Kill,
}

/// The receipt of one call of `kill(2)`: the pid and the signal it was
/// handed.
#[derive(Debug)]
pub struct Signalled {
    pid: i32,
    signal: GroupSignal,
}

impl Signalled {
    /// A receipt addresses a process group, never a single process.
    #[verifier::type_invariant]
    closed spec fn addresses_group(self) -> bool {
        self.pid <= 0
    }
}

impl View for Signalled {
    type V = (i32, GroupSignal);

    closed spec fn view(&self) -> (i32, GroupSignal) {
        (self.pid, self.signal)
    }
}

impl Signalled {
    /// The pid `kill(2)` was handed: negative for a process group.
    pub fn pid(&self) -> (pid: i32)
        ensures
            pid == self@.0,
            pid <= 0,
    {
        proof {
            use_type_invariant(self);
        }
        self.pid
    }

    /// The signal `kill(2)` was handed.
    pub fn signal(&self) -> (signal: GroupSignal)
        ensures
            signal == self@.1,
    {
        self.signal
    }
}

/// Trusted: `nix::sys::signal::kill` of the process or group `pid` (made
/// with `nix::unistd::Pid::from_raw`) with the given signal, once. The
/// receipt records the pid and the signal the call was handed; whether the
/// signal was delivered depends on the operating system, and the outcome is
/// ignored, as a group that is already gone is not actionable here. Only a
/// pid of zero or below is taken: the library signals process groups alone.
#[verifier::external_body]
pub(crate) fn send_signal(pid: i32, signal: GroupSignal) -> (sent: Signalled)
    requires
        pid <= 0,
    ensures
        sent@ == (pid, signal),
{
    let delivered = match signal {
        GroupSignal::Terminate => nix::sys::signal::Signal::SIGTERM,
        GroupSignal::Kill => nix::sys::signal::Signal::SIGKILL,
    };
    let _ = nix::sys::signal::kill(nix::unistd::Pid::from_raw(pid), delivered);
    Signalled { pid, signal }
}

} // verus!
