//! The session lifecycle state machine.
//!
//! A session starts `Uninitialized` and is driven only by the
//! `initialize`, `initialized`, `shutdown` and `exit` methods; every
//! other message leaves the phase unchanged.  The functions here
//! decide, for the current phase, what the server loop does with an
//! incoming request or notification.

use vstd::prelude::*;
use crate::json::str_eq;

verus! {

/// The protocol phase of one client session.
#[derive(Clone, Copy, PartialEq, Eq, Structural, Debug)]
pub enum LifecycleState {
    /// No `initialize` request has been accepted yet.
    Uninitialized,
    /// An `initialize` request has been dispatched; the matching
    /// `initialized` notification has not arrived.
    Initializing,
    /// Normal operation.
    Initialized,
    /// A `shutdown` request has been accepted.
    ShuttingDown,
    /// An `exit` notification arrived, or the transport died.
    /// Nothing is read or written any more.
    Exited,
}

/// What the server loop does with an incoming request, given the phase.
#[derive(Clone, Copy, PartialEq, Eq, Structural, Debug)]
pub enum RequestGate {
    /// Dispatch the request to the handler table.
    Dispatch,
    /// This is the `initialize` request that opens the session:
    /// dispatch it and move to `Initializing`.
    StartInitialize,
    /// This is the `shutdown` request: answer it and move to
    /// `ShuttingDown`.
    BeginShutdown,
    /// Answer with the "server not initialized" error.
    RejectNotInitialized,
    /// Answer with the "invalid request" error (a lifecycle method
    /// arriving in a phase where it makes no sense).
    RejectInvalid,
    /// The session is over; the message is not processed at all.
    Drop,
}

/// What the server loop does with an incoming notification.
#[derive(Clone, Copy, PartialEq, Eq, Structural, Debug)]
pub enum NotificationGate {
    /// Dispatch the notification to the handler table.
    Dispatch,
    /// This is the `initialized` notification completing the
    /// handshake: dispatch it and move to `Initialized`.
    FinishInitialize,
    /// This is the `exit` notification: close the session cleanly.
    Exit,
    /// This is an `exit` notification arriving before `shutdown`:
    /// close the session, noting the abnormal order.
    AbnormalExit,
    /// Ignore the notification, emitting only a diagnostic.
    Ignore,
    /// The session is over; the message is not processed at all.
    Drop,
}

/// What the server loop does with a request named `m` arriving in
/// phase `s`, together with the phase the session moves to.
pub open spec fn request_gate_spec(s: LifecycleState, m: Seq<char>) -> (RequestGate, LifecycleState) {
    match s {
        LifecycleState::Uninitialized => if m == "initialize"@ {
            (RequestGate::StartInitialize, LifecycleState::Initializing)
        } else {
            (RequestGate::RejectNotInitialized, LifecycleState::Uninitialized)
        },
        LifecycleState::Initializing => if m == "initialize"@ {
            (RequestGate::RejectInvalid, LifecycleState::Initializing)
        } else {
            (RequestGate::Dispatch, LifecycleState::Initializing)
        },
        LifecycleState::Initialized => if m == "initialize"@ {
            (RequestGate::RejectInvalid, LifecycleState::Initialized)
        } else if m == "shutdown"@ {
            (RequestGate::BeginShutdown, LifecycleState::ShuttingDown)
        } else {
            (RequestGate::Dispatch, LifecycleState::Initialized)
        },
        LifecycleState::ShuttingDown => if m == "initialize"@ || m == "shutdown"@ {
            (RequestGate::RejectInvalid, LifecycleState::ShuttingDown)
        } else {
            (RequestGate::Dispatch, LifecycleState::ShuttingDown)
        },
        LifecycleState::Exited => (RequestGate::Drop, LifecycleState::Exited),
    }
}

/// What the server loop does with a notification named `m` arriving
/// in phase `s`, together with the phase the session moves to.  An `exit`
/// notification ends the session from any live phase; `initialized`
/// completes the handshake only out of `Initializing`; in
/// `Uninitialized` every other notification is ignored.
pub open spec fn notification_gate_spec(s: LifecycleState, m: Seq<char>) -> (NotificationGate, LifecycleState) {
    match s {
        LifecycleState::Exited => (NotificationGate::Drop, LifecycleState::Exited),
        LifecycleState::ShuttingDown => if m == "exit"@ {
            (NotificationGate::Exit, LifecycleState::Exited)
        } else if m == "initialized"@ {
            (NotificationGate::Ignore, LifecycleState::ShuttingDown)
        } else {
            (NotificationGate::Dispatch, LifecycleState::ShuttingDown)
        },
        LifecycleState::Uninitialized => if m == "exit"@ {
            (NotificationGate::AbnormalExit, LifecycleState::Exited)
        } else {
            (NotificationGate::Ignore, LifecycleState::Uninitialized)
        },
        LifecycleState::Initializing => if m == "exit"@ {
            (NotificationGate::AbnormalExit, LifecycleState::Exited)
        } else if m == "initialized"@ {
            (NotificationGate::FinishInitialize, LifecycleState::Initialized)
        } else {
            (NotificationGate::Dispatch, LifecycleState::Initializing)
        },
        LifecycleState::Initialized => if m == "exit"@ {
            (NotificationGate::AbnormalExit, LifecycleState::Exited)
        } else if m == "initialized"@ {
            (NotificationGate::Ignore, LifecycleState::Initialized)
        } else {
            (NotificationGate::Dispatch, LifecycleState::Initialized)
        },
    }
}

/// Decide what to do with a request named `method` in phase `s`.
pub fn gate_request(s: LifecycleState, method: &String) -> (r: (RequestGate, LifecycleState))
    ensures
        r == request_gate_spec(s, method@),
{
    match s {
        LifecycleState::Uninitialized => if str_eq(method, "initialize") {
            (RequestGate::StartInitialize, LifecycleState::Initializing)
        } else {
            (RequestGate::RejectNotInitialized, LifecycleState::Uninitialized)
        },
        LifecycleState::Initializing => if str_eq(method, "initialize") {
            (RequestGate::RejectInvalid, LifecycleState::Initializing)
        } else {
            (RequestGate::Dispatch, LifecycleState::Initializing)
        },
        LifecycleState::Initialized => if str_eq(method, "initialize") {
            (RequestGate::RejectInvalid, LifecycleState::Initialized)
        } else if str_eq(method, "shutdown") {
            (RequestGate::BeginShutdown, LifecycleState::ShuttingDown)
        } else {
            (RequestGate::Dispatch, LifecycleState::Initialized)
        },
        LifecycleState::ShuttingDown => if str_eq(method, "initialize") || str_eq(method, "shutdown") {
            (RequestGate::RejectInvalid, LifecycleState::ShuttingDown)
        } else {
            (RequestGate::Dispatch, LifecycleState::ShuttingDown)
        },
        LifecycleState::Exited => (RequestGate::Drop, LifecycleState::Exited),
    }
}

/// Decide what to do with a notification named `method` in phase `s`.
pub fn gate_notification(s: LifecycleState, method: &String) -> (r: (NotificationGate, LifecycleState))
    ensures
        r == notification_gate_spec(s, method@),
{
    match s {
        LifecycleState::Exited => (NotificationGate::Drop, LifecycleState::Exited),
        LifecycleState::ShuttingDown => if str_eq(method, "exit") {
            (NotificationGate::Exit, LifecycleState::Exited)
        } else if str_eq(method, "initialized") {
            (NotificationGate::Ignore, LifecycleState::ShuttingDown)
        } else {
            (NotificationGate::Dispatch, LifecycleState::ShuttingDown)
        },
        LifecycleState::Uninitialized => if str_eq(method, "exit") {
            (NotificationGate::AbnormalExit, LifecycleState::Exited)
        } else {
            (NotificationGate::Ignore, LifecycleState::Uninitialized)
        },
        LifecycleState::Initializing => if str_eq(method, "exit") {
            (NotificationGate::AbnormalExit, LifecycleState::Exited)
        } else if str_eq(method, "initialized") {
            (NotificationGate::FinishInitialize, LifecycleState::Initialized)
        } else {
            (NotificationGate::Dispatch, LifecycleState::Initializing)
        },
        LifecycleState::Initialized => if str_eq(method, "exit") {
            (NotificationGate::AbnormalExit, LifecycleState::Exited)
        } else if str_eq(method, "initialized") {
            (NotificationGate::Ignore, LifecycleState::Initialized)
        } else {
            (NotificationGate::Dispatch, LifecycleState::Initialized)
        },
    }
}

} // verus!
