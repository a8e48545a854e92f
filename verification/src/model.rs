//! The manager as contracts see it: its state, and what each request makes
//! of that state.

use vstd::prelude::*;
use crate::error::SessionError;
use crate::geometry::Dimensions;
use crate::session::SessionView;

verus! {

/// How a system call that the caller made for a session ended.
#[derive(Clone, Copy, Debug, PartialEq, Eq, Structural)]
pub enum IoOutcome {
    Completed,
    Failed,
}

impl IoOutcome {
    /// What a write returns whose session was found, once the caller's
    /// attempt to send the payload has ended this way.
    pub open spec fn write_result(self) -> Result<(), SessionError> {
        match self {
            IoOutcome::Completed => Ok(()),
            IoOutcome::Failed => Err(SessionError::WriteFailed),
        }
    }
}

/// What a manager is in contracts: the sessions that are open, and every
/// identifier that was ever given to a session, open or closed.
#[verifier::ext_equal]
pub struct ManagerState<H> {
    pub sessions: Map<Seq<char>, SessionView<H>>,
    pub issued: Set<Seq<char>>,
}

impl<H> ManagerState<H> {
    /// The state of a manager that has opened nothing yet.
    pub open spec fn empty() -> ManagerState<H> {
        ManagerState { sessions: Map::empty(), issued: Set::empty() }
    }

    /// Every open session is filed under its own identifier, and that
    /// identifier counts as issued.
    pub open spec fn valid(self) -> bool {
        forall|id: Seq<char>| #[trigger]
            self.sessions.contains_key(id) ==> self.sessions[id].id == id && self.issued.contains(
                id,
            )
    }

    /// Whether a session is open under `id`.
    pub open spec fn is_open(self, id: Seq<char>) -> bool {
        self.sessions.contains_key(id)
    }

    /// The state after a new session `id` of the initial size has been
    /// registered with `handles`.
    pub open spec fn registered(self, id: Seq<char>, handles: H) -> ManagerState<H> {
        ManagerState {
            sessions: self.sessions.insert(
                id,
                SessionView { id, dimensions: Dimensions::initial(), handles },
            ),
            issued: self.issued.insert(id),
        }
    }

    /// What registering a session under the candidate `id` leads to: the
    /// state afterwards and the answer. A candidate that was issued before is
    /// turned down and changes nothing.
    pub open spec fn register(self, id: Seq<char>, handles: H) -> (
        ManagerState<H>,
        Result<Seq<char>, SessionError>,
    ) {
        if self.issued.contains(id) {
            (self, Err(SessionError::IdentifierUnavailable))
        } else {
            (self.registered(id, handles), Ok(id))
        }
    }

    /// The handles of the session `id`, through which the caller reaches its
    /// terminal and its shell.
    pub open spec fn handles_of(self, id: Seq<char>) -> Result<H, SessionError> {
        if self.is_open(id) {
            Ok(self.sessions[id].handles)
        } else {
            Err(SessionError::SessionNotFound)
        }
    }

    /// The size on record for `id`.
    pub open spec fn dimensions_of(self, id: Seq<char>) -> Result<Dimensions, SessionError> {
        if self.is_open(id) {
            Ok(self.sessions[id].dimensions)
        } else {
            Err(SessionError::SessionNotFound)
        }
    }

    /// What a resize of `id` leads to once the caller's attempt to resize the
    /// terminal has ended with `applied`: the state afterwards and the
    /// answer. Only a resize that the terminal took changes the record.
    pub open spec fn resize(self, id: Seq<char>, dimensions: Dimensions, applied: IoOutcome) -> (
        ManagerState<H>,
        Result<(), SessionError>,
    ) {
        if !self.is_open(id) {
            (self, Err(SessionError::SessionNotFound))
        } else if applied == IoOutcome::Failed {
            (self, Err(SessionError::ResizeFailed))
        } else {
            (
                ManagerState {
                    sessions: self.sessions.insert(
                        id,
                        self.sessions[id].with_dimensions(dimensions),
                    ),
                    issued: self.issued,
                },
                Ok(()),
            )
        }
    }

    /// The state after `id` has been closed. Its identifier stays issued.
    pub open spec fn closed(self, id: Seq<char>) -> ManagerState<H> {
        ManagerState { sessions: self.sessions.remove(id), issued: self.issued }
    }
}

/// A request to the manager together with what the caller reports of the
/// system's part in it.
pub enum Request<H> {
    /// An open for which the shell runs behind `handles` and the candidate
    /// `candidate` was drawn as the identifier.
    Open { candidate: Seq<char>, handles: H },
    /// A resize of `id` to `dimensions` that the terminal took or refused.
    Resize { id: Seq<char>, dimensions: Dimensions, applied: IoOutcome },
    /// A close of `id`.
    Close { id: Seq<char> },
}

impl<H> ManagerState<H> {
    /// The state after `request`. Writes are no requests here: they leave
    /// the state as it is.
    pub open spec fn after(self, request: Request<H>) -> ManagerState<H> {
        match request {
            Request::Open { candidate, handles } => self.register(candidate, handles).0,
            Request::Resize { id, dimensions, applied } => self.resize(id, dimensions, applied).0,
            Request::Close { id } => self.closed(id),
        }
    }

    /// The identifier that `request` hands out: the candidate of an open
    /// that is accepted, and nothing for any other request.
    pub open spec fn issues(self, request: Request<H>) -> Option<Seq<char>> {
        match request {
            Request::Open { candidate, handles } => match self.register(candidate, handles).1 {
                Ok(id) => Some(id),
                Err(_) => None,
            },
            _ => None,
        }
    }

    /// The state after all of `requests`, taken in order.
    pub open spec fn after_all(self, requests: Seq<Request<H>>) -> ManagerState<H>
        decreases requests.len(),
    {
        if requests.len() == 0 {
            self
        } else {
            self.after_all(requests.drop_last()).after(requests.last())
        }
    }
}

} // verus!
