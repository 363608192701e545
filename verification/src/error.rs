//! What goes wrong, and how it is said.
use vstd::prelude::*;

verus! {

/// The kinds of error.
#[derive(Debug, Clone, Copy, PartialEq, Eq, Structural)]
pub enum ErrorKind {
    /// Something is not there.
    NotFound,
    /// Something is there already.
    AlreadyExists,
    /// An argument is of no use.
    InvalidInput,
    /// Data do not have the form they should.
    InvalidData,
    /// Something took too long.
    TimedOut,
    /// A wait was cut short.
    Interrupted,
    /// Less came than was to come.
    UnexpectedEof,
    /// Something is not offered.
    Unsupported,
    /// The other side went away.
    BrokenPipe,
    /// The other side does not answer.
    ConnectionRefused,
    /// An address is taken.
    AddrInUse,
    /// Anything else.
    Other,
}

/// An error: its kind, and what it says.
#[derive(Debug, Clone, PartialEq, Eq)]
pub struct PoolError {
    /// The kind.
    pub kind: ErrorKind,
    /// What it says.
    pub message: String,
}

impl PoolError {
    /// Whether this error is of the kind and says the text.
    pub open spec fn says(self, kind: ErrorKind, message: Seq<char>) -> bool {
        self.kind == kind && self.message@ == message
    }

    /// An error of the kind that says the text.
    pub fn new(kind: ErrorKind, message: &str) -> (r: PoolError)
        ensures
            r.says(kind, message@),
    {
        PoolError { kind, message: message.to_owned() }
    }
}

} // verus!
