//! The error type returned by the library's fallible operations.
use vstd::prelude::*;

use crate::text::{decimal, decimal_string, owned, push_str};

verus! {

/// What went wrong, in the categories the HTTP layer maps to status codes.
#[derive(Debug, PartialEq, Eq)]
pub enum RingError {
    /// The request is malformed or not allowed in the current state (400).
    BadRequest(String),
    /// The addressed item does not exist (404).
    NotFound(String),
    /// The caller lacks the role for the operation (403).
    Forbidden(String),
    /// The operation conflicts with existing state (409).
    Conflict(String),
    /// An unexpected failure (500).
    Internal(String),
    /// The ring's archive repository has not been initialised.
    RepoNotFound { ring_id: String },
    /// An archive record is not in the state an operation needs.
    InvalidArchiveState { record_id: String, current: String, expected: String },
    /// The GitLab API answered with an error status (0 when unreachable).
    GitlabApiError { status: u16, message: String },
    /// A git command exited unsuccessfully.
    GitCommandFailed { cmd: String, stderr: String },
    /// An archive's review cannot be merged as it stands.
    ArchiveConflict { record_id: String },
}

/// The text that describes an error to a user.
pub open spec fn error_text(e: RingError) -> Seq<char> {
    match e {
        RingError::BadRequest(m) => "bad request: "@ + m@,
        RingError::NotFound(m) => "not found: "@ + m@,
        RingError::Forbidden(m) => "forbidden: "@ + m@,
        RingError::Conflict(m) => "conflict: "@ + m@,
        RingError::Internal(m) => "internal error: "@ + m@,
        RingError::RepoNotFound { ring_id } => "repository not found for ring "@ + ring_id@,
        RingError::InvalidArchiveState { record_id, current, expected } => "archive record "@
            + record_id@ + " is "@ + current@ + ", expected "@ + expected@,
        RingError::GitlabApiError { status, message } => "GitLab API error ("@ + decimal(
            status as nat,
        ) + "): "@ + message@,
        RingError::GitCommandFailed { cmd, stderr } => "git command failed: "@ + cmd@ + ": "@
            + stderr@,
        RingError::ArchiveConflict { record_id } => "archive conflict: "@ + record_id@,
    }
}

impl RingError {
    /// Describes the error for a user (see `error_text`).
    pub fn describe(&self) -> (r: String)
        ensures
            r@ == error_text(*self),
    {
        match self {
            RingError::BadRequest(m) => {
                let mut r = owned("bad request: ");
                push_str(&mut r, m.as_str());
                r
            },
            RingError::NotFound(m) => {
                let mut r = owned("not found: ");
                push_str(&mut r, m.as_str());
                r
            },
            RingError::Forbidden(m) => {
                let mut r = owned("forbidden: ");
                push_str(&mut r, m.as_str());
                r
            },
            RingError::Conflict(m) => {
                let mut r = owned("conflict: ");
                push_str(&mut r, m.as_str());
                r
            },
            RingError::Internal(m) => {
                let mut r = owned("internal error: ");
                push_str(&mut r, m.as_str());
                r
            },
            RingError::RepoNotFound { ring_id } => {
                let mut r = owned("repository not found for ring ");
                push_str(&mut r, ring_id.as_str());
                r
            },
            RingError::InvalidArchiveState { record_id, current, expected } => {
                let mut r = owned("archive record ");
                push_str(&mut r, record_id.as_str());
                push_str(&mut r, " is ");
                push_str(&mut r, current.as_str());
                push_str(&mut r, ", expected ");
                push_str(&mut r, expected.as_str());
                r
            },
            RingError::GitlabApiError { status, message } => {
                let mut r = owned("GitLab API error (");
                let n = decimal_string(*status as u64);
                push_str(&mut r, n.as_str());
                push_str(&mut r, "): ");
                push_str(&mut r, message.as_str());
                r
            },
            RingError::ArchiveConflict { record_id } => {
                let mut r = owned("archive conflict: ");
                push_str(&mut r, record_id.as_str());
                r
            },
            RingError::GitCommandFailed { cmd, stderr } => {
                let mut r = owned("git command failed: ");
                push_str(&mut r, cmd.as_str());
                push_str(&mut r, ": ");
                push_str(&mut r, stderr.as_str());
                r
            },
        }
    }
}

} // verus!
