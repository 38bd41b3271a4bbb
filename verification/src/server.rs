//! The server's lifecycle state machine: running, reloading, stopped.
//! The accept loop around it lives with the sockets; every decision the
//! loop takes on a shutdown signal is the logic verified here.

use crate::config::Settings;
use crate::shutdown::ShutdownSignal;
use vstd::prelude::*;

verus! {

/// The control loop's state.
#[derive(Debug, Clone, Copy, PartialEq, Eq)]
pub enum ServerState {
    /// Accepting connections.
    Running,
    /// A reload was requested; fresh settings are being obtained and the
    /// listener rebound.
    Reloading,
    /// The accept loop is over; the process exits with the given code,
    /// or 0 when there is none.
    Stopped(Option<i32>),
}

/// What one shutdown signal does to a running server: the next state,
/// and whether the accept loop exits. A closed channel (no signal left)
/// is treated as a normal exit.
pub open spec fn spec_step(signal: Option<ShutdownSignal>) -> (ServerState, bool) {
    match signal {
        Option::Some(ShutdownSignal::NormalExit) => (ServerState::Stopped(Option::None), true),
        Option::Some(ShutdownSignal::ErrorExit(code)) => (
            ServerState::Stopped(Option::Some(code)),
            true,
        ),
        Option::Some(ShutdownSignal::ReloadConfig) => (ServerState::Reloading, false),
        Option::None => (ServerState::Stopped(Option::None), true),
    }
}

/// The process exit code a stopped state dictates.
pub open spec fn spec_exit_code(state: ServerState) -> int {
    match state {
        ServerState::Stopped(Option::Some(code)) => code as int,
        _ => 0,
    }
}

/// The server model: the active settings snapshot and the lifecycle
/// state. The listener and the signal channel live with the caller, who
/// binds, accepts and receives as this state dictates.
#[derive(Debug)]
pub struct Server {
    pub settings: Settings,
    pub state: ServerState,
}

impl Server {
    /// A freshly started server runs on the given settings.
    pub fn new(settings: Settings) -> (s: Server)
        ensures
            s.settings == settings,
            s.state == ServerState::Running,
    {
        Server { settings, state: ServerState::Running }
    }

    /// Reacts to one received shutdown signal (absent when the channel
    /// closed): the state moves as [`spec_step`] says, the settings stay,
    /// and the returned flag tells the accept loop whether to exit.
    pub fn process_shutdown_signal(&mut self, signal: Option<ShutdownSignal>) -> (exit: bool)
        requires
            old(self).state == ServerState::Running,
        ensures
            final(self).settings == old(self).settings,
            (final(self).state, exit) == spec_step(signal),
    {
        match signal {
            Option::Some(ShutdownSignal::NormalExit) => {
                self.state = ServerState::Stopped(Option::None);
                true
            },
            Option::Some(ShutdownSignal::ErrorExit(code)) => {
                self.state = ServerState::Stopped(Option::Some(code));
                true
            },
            Option::Some(ShutdownSignal::ReloadConfig) => {
                self.state = ServerState::Reloading;
                false
            },
            Option::None => {
                self.state = ServerState::Stopped(Option::None);
                true
            },
        }
    }

    /// Installs a fresh settings snapshot and returns to running; the
    /// caller rebinds the listener at the new address. The old snapshot
    /// is replaced, never mutated: connections already holding it keep
    /// it to completion.
    pub fn reload_server(&mut self, new_settings: Settings)
        ensures
            final(self).settings == new_settings,
            final(self).state == ServerState::Running,
    {
        self.settings = new_settings;
        self.state = ServerState::Running;
    }

    /// The exit code of a stopped server.
    pub fn exit_code(&self) -> (code: i32)
        requires
            self.state matches ServerState::Stopped(_),
        ensures
            code as int == spec_exit_code(self.state),
    {
        match self.state {
            ServerState::Stopped(Option::Some(code)) => code,
            _ => 0,
        }
    }
}

/// A normal exit and a closed channel stop the loop with exit code 0; an
/// error exit stops it with the signaled code; only a reload keeps the
/// process alive, and it touches no exit code.
pub proof fn lemma_exit_codes(code: i32)
    ensures
        spec_step(Option::Some(ShutdownSignal::NormalExit)).1,
        spec_exit_code(spec_step(Option::Some(ShutdownSignal::NormalExit)).0) == 0,
        spec_step(Option::Some(ShutdownSignal::ErrorExit(code))).1,
        spec_exit_code(spec_step(Option::Some(ShutdownSignal::ErrorExit(code))).0) == code as int,
        spec_step(Option::None).1,
        spec_exit_code(spec_step(Option::None).0) == 0,
        !spec_step(Option::Some(ShutdownSignal::ReloadConfig)).1,
{
}

} // verus!
