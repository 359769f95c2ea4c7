//! The failures that the engine reports.

use vstd::prelude::*;

verus! {

/// Why an operation failed.
#[derive(Debug, Clone, Copy, PartialEq, Eq, Structural)]
pub enum ErrorKind {
    /// The host name, the certificate or the file is not there.
    NotFound,
    /// The elevation was refused, or the credential was wrong.
    PermissionDenied,
    /// A tool that the operation relies on is missing or gave up.
    ToolUnavailable,
    /// A file could not be read, written or copied.
    IoFailure,
    /// A certificate name stands for more than one certificate.
    AmbiguousMatch,
}

/// A failure, with the diagnostic text of whatever reported it, unchanged.
#[derive(Debug, Clone, PartialEq, Eq)]
pub struct EngineError {
    pub kind: ErrorKind,
    pub detail: String,
}

impl EngineError {
    /// A failure of the given kind with the given diagnostic text.
    pub fn new(kind: ErrorKind, detail: String) -> (e: EngineError)
        ensures
            e.kind == kind,
            e.detail@ == detail@,
    {
        EngineError { kind, detail }
    }

    /// The name of a kind of failure.
    pub open spec fn kind_name(kind: ErrorKind) -> Seq<char> {
        match kind {
            ErrorKind::NotFound => "not found"@,
            ErrorKind::PermissionDenied => "permission denied"@,
            ErrorKind::ToolUnavailable => "tool unavailable"@,
            ErrorKind::IoFailure => "i/o failure"@,
            ErrorKind::AmbiguousMatch => "ambiguous match"@,
        }
    }

    /// The failure in words: the name of its kind, a colon and a space, then
    /// the diagnostic text.
    pub fn message(&self) -> (text: String)
        ensures
            text@ == Self::kind_name(self.kind) + ": "@ + self.detail@,
    {
        let name = match self.kind {
            ErrorKind::NotFound => "not found",
            ErrorKind::PermissionDenied => "permission denied",
            ErrorKind::ToolUnavailable => "tool unavailable",
            ErrorKind::IoFailure => "i/o failure",
            ErrorKind::AmbiguousMatch => "ambiguous match",
        };
        String::from_str(name).concat(": ").concat(self.detail.as_str())
    }
}

} // verus!
