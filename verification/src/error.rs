//! The input/output errors that the driver reports and carries through.

use vstd::prelude::*;

verus! {

/// The category of an input/output failure.
#[derive(Debug, Clone, Copy, PartialEq, Eq, Structural)]
pub enum ErrorKind {
    /// An entity was looked up and is not there.
    NotFound,
    /// A parameter was malformed.
    InvalidInput,
    /// Fewer bytes than a whole unit could be read.
    UnexpectedEof,
    /// Any failure that has no category of its own.
    Other,
}

/// An input/output failure: its category and a fixed description.
#[derive(Debug, Clone, Copy, PartialEq, Eq)]
pub struct IoError {
    pub kind: ErrorKind,
    pub message: &'static str,
}

impl IoError {
    /// An error of category `kind` described by `message`.
    pub fn new(kind: ErrorKind, message: &'static str) -> (e: IoError)
        ensures
            e == (IoError { kind, message }),
    {
        IoError { kind, message }
    }

    /// The category of this error.
    pub fn kind(&self) -> (k: ErrorKind)
        ensures
            k == self.kind,
    {
        self.kind
    }

    /// The description of this error.
    pub fn message(&self) -> (m: &'static str)
        ensures
            m == self.message,
    {
        self.message
    }
}

} // verus!
