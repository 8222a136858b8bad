//! Error kinds raised by the storage core, and the stable integer codes a
//! host-facing marshalling layer assigns to each kind.

use vstd::prelude::*;

verus! {

/// The distinguishable failure classes of the storage core.
#[derive(Debug, Clone, Copy, PartialEq, Eq, Structural)]
pub enum ErrorKind {
    /// The observation's URL failed to parse; rejected before any write.
    InvalidUrl,
    /// The underlying engine failed, including constraint violations.
    StorageFailure,
    /// The engine reports the store is unreadable or not a valid store.
    NotADatabase,
    /// A guid or frecency collaborator reported an error.
    CollaboratorFailure,
}

/// A typed failure of one storage operation.
#[derive(Debug, Clone, Copy, PartialEq, Eq, Structural)]
pub struct Error {
    pub kind: ErrorKind,
}

impl Error {
    pub open spec fn spec_kind(&self) -> ErrorKind {
        self.kind
    }

    pub fn new(kind: ErrorKind) -> (r: Error)
        ensures
            r.kind == kind,
    {
        Error { kind }
    }

    pub fn kind(&self) -> (r: ErrorKind)
        ensures
            r == self.kind,
    {
        self.kind
    }
}

/// An unexpected failure the application cannot meaningfully handle.
/// Codes -1 and 0 are reserved by the host marshalling layer for panic
/// and success.
pub const UNEXPECTED: i32 = -2;

/// The observation's URL did not parse.
pub const INVALID_URL: i32 = 1;

/// The storage engine failed a statement or a constraint.
pub const STORAGE_FAILURE: i32 = 2;

/// The file is not a store this engine can read.
pub const NOT_A_DATABASE: i32 = 5;

/// A collaborator (guid or frecency) reported a failure.
pub const COLLABORATOR_FAILURE: i32 = 6;

/// The stable integer code a host receives for an error, one per kind,
/// so the host can map failures without inspecting message text.
pub fn get_code(err: &Error) -> (code: i32)
    ensures
        code == match err.kind {
            ErrorKind::InvalidUrl => INVALID_URL,
            ErrorKind::StorageFailure => STORAGE_FAILURE,
            ErrorKind::NotADatabase => NOT_A_DATABASE,
            ErrorKind::CollaboratorFailure => COLLABORATOR_FAILURE,
        },
        code != 0 && code != -1,
{
    match err.kind {
        ErrorKind::InvalidUrl => INVALID_URL,
        ErrorKind::StorageFailure => STORAGE_FAILURE,
        ErrorKind::NotADatabase => NOT_A_DATABASE,
        ErrorKind::CollaboratorFailure => COLLABORATOR_FAILURE,
    }
}

} // verus!
