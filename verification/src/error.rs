//! The failures that the session operations report.

use vstd::prelude::*;

verus! {

/// Why a session operation did not succeed.
#[derive(Clone, Copy, Debug, PartialEq, Eq, Structural)]
pub enum SessionError {
    /// The identifier names no session that is currently registered.
    SessionNotFound,
    /// The operating system gave no pseudo-terminal.
    PtyAllocationFailed,
    /// The shell could not be started on the terminal.
    ShellSpawnFailed,
    /// Writing to the session's input channel failed.
    WriteFailed,
    /// The terminal refused its new size.
    ResizeFailed,
    /// The identifier drawn for a new session had been issued before.
    IdentifierUnavailable,
}

impl SessionError {
    /// The text of [`SessionError::message`].
    pub open spec fn message_text(self) -> Seq<char> {
        match self {
            SessionError::SessionNotFound => "Session not found"@,
            SessionError::PtyAllocationFailed => "Failed to allocate a pseudo-terminal"@,
            SessionError::ShellSpawnFailed => "Failed to spawn the shell"@,
            SessionError::WriteFailed => "Failed to write to the session"@,
            SessionError::ResizeFailed => "Failed to resize the session"@,
            SessionError::IdentifierUnavailable => "Session identifier already issued"@,
        }
    }

    /// A short description of the failure, fit to be shown to a user.
    pub fn message(&self) -> (text: String)
        ensures
            text@ == self.message_text(),
    {
        match self {
            SessionError::SessionNotFound => "Session not found".to_string(),
            SessionError::PtyAllocationFailed => "Failed to allocate a pseudo-terminal".to_string(),
            SessionError::ShellSpawnFailed => "Failed to spawn the shell".to_string(),
            SessionError::WriteFailed => "Failed to write to the session".to_string(),
            SessionError::ResizeFailed => "Failed to resize the session".to_string(),
            SessionError::IdentifierUnavailable => "Session identifier already issued".to_string(),
        }
    }
}

} // verus!
