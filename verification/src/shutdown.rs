//! Typed shutdown signals, and the mapping that turns OS-level
//! termination requests into them.

use vstd::prelude::*;

verus! {

/// A message instructing the server's control loop to stop or reconfigure.
#[derive(Debug, Clone, Copy, PartialEq, Eq)]
pub enum ShutdownSignal {
    /// Stop the accept loop; the process exits with code 0.
    NormalExit,
    /// Stop the accept loop; the process exits with the given code.
    ErrorExit(i32),
    /// Replace the active settings and rebind the listener, then keep serving.
    ReloadConfig,
}

/// An OS-level termination request, as seen by the signal handlers.
#[derive(Debug, Clone, Copy, PartialEq, Eq)]
pub enum OsSignalKind {
    /// An interactive interrupt request.
    Interrupt,
    /// A termination request.
    Terminate,
    /// A hangup request.
    Hangup,
}

/// The shutdown coordinator maps OS requests by fixed policy: interrupt and
/// terminate requests ask for a normal exit, a hangup asks for a
/// configuration reload.
pub fn signal_for(kind: OsSignalKind) -> (s: ShutdownSignal)
    ensures
        s == match kind {
            OsSignalKind::Interrupt => ShutdownSignal::NormalExit,
            OsSignalKind::Terminate => ShutdownSignal::NormalExit,
            OsSignalKind::Hangup => ShutdownSignal::ReloadConfig,
        },
{
    match kind {
        OsSignalKind::Interrupt => ShutdownSignal::NormalExit,
        OsSignalKind::Terminate => ShutdownSignal::NormalExit,
        OsSignalKind::Hangup => ShutdownSignal::ReloadConfig,
    }
}

} // verus!
