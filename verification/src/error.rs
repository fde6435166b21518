//! Library error values: a kind and a human-readable message.

use vstd::prelude::*;

verus! {

/// Broad category of a library error.
#[derive(Debug, Clone, Copy, PartialEq, Eq, Hash, Structural)]
pub enum ErrorKind {
    /// The caller supplied invalid input.
    User,
    /// A configuration is missing or inconsistent.
    ConfigError,
}

/// A library error: its kind and message.
#[derive(Debug, Clone, PartialEq, Eq)]
pub struct Error {
    /// Category of the error.
    pub kind: ErrorKind,
    /// Human-readable detail.
    pub message: String,
}

impl Error {
    /// An error of the given kind with an empty message.
    pub fn new(kind: ErrorKind) -> (e: Self)
        ensures
            e.kind == kind,
            e.message@ == Seq::<char>::empty(),
    {
        Error { kind, message: String::new() }
    }

    /// The error with its message replaced.
    pub fn with_message(self, message: String) -> (e: Self)
        ensures
            e.kind == self.kind,
            e.message@ == message@,
    {
        Error { kind: self.kind, message }
    }

    /// Category of the error.
    pub fn kind(&self) -> (k: ErrorKind)
        ensures
            k == self.kind,
    {
        self.kind
    }

    /// Human-readable detail.
    pub fn message(&self) -> (m: &str)
        ensures
            m@ == self.message@,
    {
        self.message.as_str()
    }
}

} // verus!
