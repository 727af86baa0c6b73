use vstd::prelude::*;

use crate::constants::{INVALID_REQUEST, SERVER_NOT_INITIALIZED};

verus! {

/// Phase of a peer. Transitions only move forward.
#[derive(Debug, Clone, Copy, PartialEq, Eq, Structural)]
pub enum ServerState {
    Created,
    Initializing,
    Ready,
    ShuttingDown,
}

/// The error code with which a request is refused in `state`, if it is refused.
///
/// `initialize` is taken only once, in `Created`; a second one is an invalid request,
/// and nothing is taken while shutting down. Every other request needs `Ready`.
pub open spec fn refusal(state: ServerState, is_initialize: bool) -> Option<i32> {
    if is_initialize {
        match state {
            ServerState::Created => None,
            ServerState::ShuttingDown => Some(SERVER_NOT_INITIALIZED),
            _ => Some(INVALID_REQUEST),
        }
    } else if state == ServerState::Ready {
        None
    } else {
        Some(SERVER_NOT_INITIALIZED)
    }
}

/// The phase after the `initialized` notification arrives.
pub open spec fn after_initialized(state: ServerState) -> ServerState {
    if state == ServerState::Initializing {
        ServerState::Ready
    } else {
        state
    }
}

/// How far along the lifecycle a phase is.
pub open spec fn rank(state: ServerState) -> int {
    match state {
        ServerState::Created => 0,
        ServerState::Initializing => 1,
        ServerState::Ready => 2,
        ServerState::ShuttingDown => 3,
    }
}

/// The refusal, if any, of a request in `state`.
pub fn check_request(state: ServerState, is_initialize: bool) -> (r: Option<i32>)
    ensures
        r == refusal(state, is_initialize),
{
    if is_initialize {
        match state {
            ServerState::Created => None,
            ServerState::ShuttingDown => Some(SERVER_NOT_INITIALIZED),
            _ => Some(INVALID_REQUEST),
        }
    } else if state == ServerState::Ready {
        None
    } else {
        Some(SERVER_NOT_INITIALIZED)
    }
}

/// The phase after the `initialized` notification.
pub fn on_initialized(state: ServerState) -> (r: ServerState)
    ensures
        r == after_initialized(state),
        rank(r) >= rank(state),
{
    if state == ServerState::Initializing {
        ServerState::Ready
    } else {
        state
    }
}

/// The `initialized` notification never moves a peer backwards.
pub proof fn lemma_phases_only_advance(state: ServerState)
    ensures
        rank(after_initialized(state)) >= rank(state),
{
}

} // verus!
