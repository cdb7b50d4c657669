//! The process supervisor's lifecycle state machine.
//!
//! A session walks from `NotStarted` through spawning, a bounded connect
//! retry, the initialize/launch/configure handshake, and the running state,
//! until something terminates it.  The driver performs the I/O for each
//! step and feeds the outcome back in; the transition rules live here and
//! are exact: in particular the connect retry is bounded at ten attempts,
//! half a second apart, and gives up precisely when all ten fail.

use vstd::prelude::*;

verus! {

/// Attempt bound of the connect retry.
pub const MAX_CONNECT_ATTEMPTS: u64 = 10;

/// Pause between connect attempts, in milliseconds.
pub const RETRY_INTERVAL_MS: u64 = 500;

/// Where a session stands in its lifecycle.
#[derive(Clone, Debug)]
pub enum SupervisorState {
    NotStarted,
    Spawning,
    AwaitingPort,
    Connecting { attempts: u64 },
    Connected,
    Initializing,
    Running,
    Stopped { reason: String, thread_id: u64 },
    Terminated,
}

/// What happened, as the driver reports it.
#[derive(Clone, Debug)]
pub enum LifecycleEvent {
    StartRequested,
    ProcessSpawned,
    ConnectTried { succeeded: bool },
    HandshakeStarted,
    ConfigurationAcknowledged,
    StoppedEvent { reason: String, thread_id: u64 },
    ContinuedEvent,
    TerminatedEvent,
    StopRequested,
    TransportFailed,
}

/// The transition rules.  A failed connect attempt counts toward the bound
/// and exhausts the session at the tenth failure; `terminated`, an explicit
/// stop, and a transport failure each end the session from any state; an
/// event that fits no rule leaves the state unchanged.
pub open spec fn next_state(s: SupervisorState, e: LifecycleEvent) -> SupervisorState {
    match e {
        LifecycleEvent::TerminatedEvent => SupervisorState::Terminated,
        LifecycleEvent::StopRequested => SupervisorState::Terminated,
        LifecycleEvent::TransportFailed => SupervisorState::Terminated,
        LifecycleEvent::StartRequested => match s {
            SupervisorState::NotStarted => SupervisorState::Spawning,
            _ => s,
        },
        LifecycleEvent::ProcessSpawned => match s {
            SupervisorState::Spawning => SupervisorState::AwaitingPort,
            _ => s,
        },
        LifecycleEvent::ConnectTried { succeeded } => match s {
            SupervisorState::AwaitingPort => if succeeded {
                SupervisorState::Connected
            } else if MAX_CONNECT_ATTEMPTS <= 1 {
                SupervisorState::Terminated
            } else {
                SupervisorState::Connecting { attempts: 1 }
            },
            SupervisorState::Connecting { attempts } => if succeeded {
                SupervisorState::Connected
            } else if attempts + 1 >= MAX_CONNECT_ATTEMPTS {
                SupervisorState::Terminated
            } else {
                SupervisorState::Connecting { attempts: (attempts + 1) as u64 }
            },
            _ => s,
        },
        LifecycleEvent::HandshakeStarted => match s {
            SupervisorState::Connected => SupervisorState::Initializing,
            _ => s,
        },
        LifecycleEvent::ConfigurationAcknowledged => match s {
            SupervisorState::Initializing => SupervisorState::Running,
            _ => s,
        },
        LifecycleEvent::StoppedEvent { reason, thread_id } => match s {
            SupervisorState::Running => SupervisorState::Stopped { reason, thread_id },
            _ => s,
        },
        LifecycleEvent::ContinuedEvent => match s {
            SupervisorState::Stopped { .. } => SupervisorState::Running,
            _ => s,
        },
    }
}

/// Apply one lifecycle event.
pub fn step(s: SupervisorState, e: LifecycleEvent) -> (r: SupervisorState)
    ensures
        r == next_state(s, e),
{
    match e {
        LifecycleEvent::TerminatedEvent => SupervisorState::Terminated,
        LifecycleEvent::StopRequested => SupervisorState::Terminated,
        LifecycleEvent::TransportFailed => SupervisorState::Terminated,
        LifecycleEvent::StartRequested => match s {
            SupervisorState::NotStarted => SupervisorState::Spawning,
            _ => s,
        },
        LifecycleEvent::ProcessSpawned => match s {
            SupervisorState::Spawning => SupervisorState::AwaitingPort,
            _ => s,
        },
        LifecycleEvent::ConnectTried { succeeded } => match s {
            SupervisorState::AwaitingPort => {
                if succeeded {
                    SupervisorState::Connected
                } else if MAX_CONNECT_ATTEMPTS <= 1 {
                    SupervisorState::Terminated
                } else {
                    SupervisorState::Connecting { attempts: 1 }
                }
            },
            SupervisorState::Connecting { attempts } => {
                if succeeded {
                    SupervisorState::Connected
                } else if attempts >= MAX_CONNECT_ATTEMPTS - 1 {
                    SupervisorState::Terminated
                } else {
                    SupervisorState::Connecting { attempts: attempts + 1 }
                }
            },
            _ => s,
        },
        LifecycleEvent::HandshakeStarted => match s {
            SupervisorState::Connected => SupervisorState::Initializing,
            _ => s,
        },
        LifecycleEvent::ConfigurationAcknowledged => match s {
            SupervisorState::Initializing => SupervisorState::Running,
            _ => s,
        },
        LifecycleEvent::StoppedEvent { reason, thread_id } => match s {
            SupervisorState::Running => SupervisorState::Stopped { reason, thread_id },
            _ => s,
        },
        LifecycleEvent::ContinuedEvent => match s {
            SupervisorState::Stopped { .. } => SupervisorState::Running,
            _ => s,
        },
    }
}

/// Index of the first successful attempt among the first `bound`, scanning
/// from `i`.
pub open spec fn first_success_from(outcomes: Seq<bool>, bound: int, i: int) -> Option<int>
    decreases bound - i,
{
    if i < 0 || i >= bound || i >= outcomes.len() {
        None
    } else if outcomes[i] {
        Some(i)
    } else {
        first_success_from(outcomes, bound, i + 1)
    }
}

} // verus!
