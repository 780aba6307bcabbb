use vstd::prelude::*;

use crate::state::State;

verus! {

/// Who an event is attributed to.
#[derive(Debug, Clone)]
pub enum CausedBy {
    System,
    User { user_id: String, user_name: String },
    Unknown,
}

impl CausedBy {
    /// A copy of this attribution.
    pub fn copy(&self) -> (r: CausedBy)
        ensures
            r == *self,
    {
        match self {
            CausedBy::System => CausedBy::System,
            CausedBy::User { user_id, user_name } => CausedBy::User {
                user_id: user_id.clone(),
                user_name: user_name.clone(),
            },
            CausedBy::Unknown => CausedBy::Unknown,
        }
    }
}

/// What an event reports.
#[derive(Debug, Clone)]
pub enum EventKind {
    /// The instance's lifecycle state changed to `to`.
    StateTransition { to: State },
    /// The process wrote `message` on its console.
    InstanceOutput { message: String },
    /// The server logged `message` on its own behalf.
    SystemMessage { message: String },
    /// `player` wrote `message` in chat.
    PlayerMessage { player: String, message: String },
}

/// An immutable record published on the event bus.
#[derive(Debug, Clone)]
pub struct Event {
    pub kind: EventKind,
    /// The instance the event is about.
    pub instance: u64,
    /// A human-readable description.
    pub detail: String,
    pub caused_by: CausedBy,
    /// The position of the event in the order its instance published them.
    pub sequence: u64,
}

/// How an operation failed.
#[derive(Debug, Clone, Copy, PartialEq, Eq, Structural)]
pub enum ErrorKind {
    /// The state machine refused the request in the current state.
    InvalidTransition,
    /// The operation makes no sense in the current state (the instance is stopped).
    InvalidState,
    /// The configured port is already bound on the host.
    ResourceBusy,
    /// Missing handle or stream, closed event bus, or inconsistent bookkeeping.
    Internal,
    /// Spawning, writing to or killing the process failed.
    IOFailure,
}

/// A failure reported to the caller of a supervisor operation.
#[derive(Debug, Clone)]
pub struct Error {
    pub kind: ErrorKind,
    pub detail: String,
}

impl Error {
    /// An error of `kind` described by `detail`.
    pub fn new(kind: ErrorKind, detail: &str) -> (r: Error)
        ensures
            r.kind == kind,
            r.detail@ == detail@,
    {
        Error { kind, detail: String::from_str(detail) }
    }
}

} // verus!
