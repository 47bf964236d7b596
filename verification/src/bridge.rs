//! Bridge orchestrator: the session state machine.
//!
//! One session runs through {Idle, Connecting, Connected, Disconnecting}.
//! A connect request with a non-empty destination moves Idle to Connecting,
//! zeroes the per-session counters and asks the runtime to start the
//! streams and the network thread; an empty destination is a validation
//! error that changes no state. Once capture, output and sockets are all
//! up, Connecting becomes Connected; a startup failure reports the error,
//! marks the session disconnected and tears down exactly as an explicit
//! stop does. The runtime around this module performs the actions it is
//! handed (starting streams, joining threads) and feeds the outcome back as
//! the next event; only the decisions live here.

use vstd::prelude::*;

verus! {

use crate::counters::Counters;

/// The lifecycle phase of one bridge session.
#[derive(Clone, Copy, Debug, PartialEq, Eq)]
pub enum BridgeState {
    Idle,
    Connecting,
    Connected,
    Disconnecting,
}

/// What an observer is told about the session. The runtime renders these
/// as human-readable status text (and carries any error detail itself).
#[derive(Clone, Copy, Debug, PartialEq, Eq)]
pub enum Status {
    /// Nothing reported yet.
    Blank,
    /// A connect request named no destination.
    SelectDevice,
    /// Startup is in progress.
    Connecting,
    /// Both streams and the network thread are up.
    Connected,
    /// The session ended by request.
    Disconnected,
    /// Startup failed.
    Failed,
}

/// What the runtime must do after a transition.
#[derive(Clone, Copy, Debug, PartialEq, Eq)]
pub enum BridgeAction {
    /// Nothing.
    Nothing,
    /// Start capture and output streams and the network thread.
    StartSession,
    /// Stop the streams, raise the stop flag and join the network thread.
    Teardown,
}

/// One bridge session: its phase, what observers see, and its counters.
pub struct BridgeSession {
    pub state: BridgeState,
    pub connected: bool,
    pub status: Status,
    pub counters: Counters,
}

impl BridgeSession {
    /// A fresh session: idle, disconnected, nothing reported, all metrics
    /// zero.
    pub fn new() -> (s: BridgeSession)
        ensures
            s.state is Idle,
            !s.connected,
            s.status is Blank,
            s.counters.spec_zeroed(),
    {
        BridgeSession {
            state: BridgeState::Idle,
            connected: false,
            status: Status::Blank,
            counters: Counters::new(),
        }
    }

    /// A connect request with the given destination. Only an idle session
    /// reacts: an empty destination is rejected with a validation status
    /// and no state change; otherwise the session enters Connecting with
    /// fresh counters and the runtime is told to start the streams and the
    /// network thread.
    pub fn connect_request(&mut self, dest: &str) -> (action: BridgeAction)
        ensures
            (old(self).state is Idle && dest@.len() > 0) ==> {
                &&& final(self).state is Connecting
                &&& final(self).connected
                &&& final(self).status is Connecting
                &&& final(self).counters.spec_zeroed()
                &&& (action is StartSession)
            },
            (old(self).state is Idle && dest@.len() == 0) ==> {
                &&& final(self).state is Idle
                &&& final(self).connected == old(self).connected
                &&& final(self).status is SelectDevice
                &&& final(self).counters == old(self).counters
                &&& (action is Nothing)
            },
            !(old(self).state is Idle) ==> *final(self) == *old(self) && (action is Nothing),
    {
        match self.state {
            BridgeState::Idle => {
                if dest.is_empty() {
                    self.status = Status::SelectDevice;
                    BridgeAction::Nothing
                } else {
                    self.state = BridgeState::Connecting;
                    self.connected = true;
                    self.status = Status::Connecting;
                    self.counters.reset();
                    BridgeAction::StartSession
                }
            },
            _ => BridgeAction::Nothing,
        }
    }

    /// The runtime reports that capture, output and both sockets are up:
    /// a Connecting session becomes Connected; any other phase ignores it.
    pub fn startup_succeeded(&mut self)
        ensures
            old(self).state is Connecting ==> {
                &&& final(self).state is Connected
                &&& final(self).connected
                &&& final(self).status is Connected
                &&& final(self).counters == old(self).counters
            },
            !(old(self).state is Connecting) ==> *final(self) == *old(self),
    {
        match self.state {
            BridgeState::Connecting => {
                self.state = BridgeState::Connected;
                self.connected = true;
                self.status = Status::Connected;
            },
            _ => {},
        }
    }

    /// The runtime reports that starting a stream or binding a socket
    /// failed: a Connecting session reports the failure, is marked
    /// disconnected and returns to Idle, tearing down exactly as an
    /// explicit stop does; any other phase ignores it.
    pub fn startup_failed(&mut self) -> (action: BridgeAction)
        ensures
            old(self).state is Connecting ==> {
                &&& final(self).state is Idle
                &&& !final(self).connected
                &&& final(self).status is Failed
                &&& final(self).counters == old(self).counters
                &&& (action is Teardown)
            },
            !(old(self).state is Connecting) ==> *final(self) == *old(self) && (action is Nothing),
    {
        match self.state {
            BridgeState::Connecting => {
                self.state = BridgeState::Idle;
                self.connected = false;
                self.status = Status::Failed;
                BridgeAction::Teardown
            },
            _ => BridgeAction::Nothing,
        }
    }

    /// An explicit stop request: a session that is Connected (or still
    /// Connecting) starts disconnecting, is marked disconnected at once,
    /// and the runtime is told to tear the participants down; any other
    /// phase ignores it.
    pub fn stop_request(&mut self) -> (action: BridgeAction)
        ensures
            (old(self).state is Connected || old(self).state is Connecting) ==> {
                &&& final(self).state is Disconnecting
                &&& !final(self).connected
                &&& final(self).status is Disconnected
                &&& final(self).counters == old(self).counters
                &&& (action is Teardown)
            },
            !(old(self).state is Connected || old(self).state is Connecting) ==> *final(self)
                == *old(self) && (action is Nothing),
    {
        match self.state {
            BridgeState::Connected | BridgeState::Connecting => {
                self.state = BridgeState::Disconnecting;
                self.connected = false;
                self.status = Status::Disconnected;
                BridgeAction::Teardown
            },
            _ => BridgeAction::Nothing,
        }
    }

    /// The runtime reports that the streams are stopped and the network
    /// thread has observed the stop flag and exited: a Disconnecting
    /// session is back to Idle; any other phase ignores it.
    pub fn teardown_complete(&mut self)
        ensures
            old(self).state is Disconnecting ==> {
                &&& final(self).state is Idle
                &&& final(self).connected == old(self).connected
                &&& final(self).status == old(self).status
                &&& final(self).counters == old(self).counters
            },
            !(old(self).state is Disconnecting) ==> *final(self) == *old(self),
    {
        match self.state {
            BridgeState::Disconnecting => {
                self.state = BridgeState::Idle;
            },
            _ => {},
        }
    }
}

} // verus!
