//! The errors that capturing and encoding report: a kind, a message, and what
//! caused them.

use crate::text::join;
use vstd::prelude::*;

verus! {

#[derive(Clone, Copy, PartialEq, Eq, Debug, Structural)]
pub enum ErrorKind {
    NotFound,
    PermissionDenied,
    WouldBlock,
    InvalidData,
    TimedOut,
    WriteZero,
    Unsupported,
    UnexpectedEof,
    BrokenPipe,
    Other,
}

/// An error. One that was made of another keeps it as its cause, with the cause's
/// kind and message.
#[derive(Debug)]
pub struct Error {
    pub kind: ErrorKind,
    pub message: String,
    pub cause: Option<Box<Error>>,
}

/// What an error says.
#[verifier::ext_equal]
pub struct Failure {
    pub kind: ErrorKind,
    pub message: Seq<char>,
    pub cause: Option<Error>,
}

impl Failure {
    /// A failure that nothing else caused.
    pub open spec fn of(kind: ErrorKind, message: Seq<char>) -> Failure {
        Failure { kind, message, cause: None }
    }

    /// What a message says of another error.
    pub open spec fn caused(message: Seq<char>, cause: Error) -> Failure {
        Failure { kind: ErrorKind::Other, message, cause: Some(cause) }
    }
}

impl View for Error {
    type V = Failure;

    open spec fn view(&self) -> Failure {
        Failure {
            kind: self.kind,
            message: self.message@,
            cause: match self.cause {
                Some(cause) => Some(*cause),
                None => None,
            },
        }
    }
}

impl Error {
    pub fn new(kind: ErrorKind, message: &str) -> (err: Error)
        ensures
            err@ == Failure::of(kind, message@),
    {
        Error::with_message(kind, message.to_owned())
    }

    pub fn with_message(kind: ErrorKind, message: String) -> (err: Error)
        ensures
            err@ == Failure::of(kind, message@),
    {
        Error { kind, message, cause: None }
    }

    /// An error that only carries a message.
    pub fn other(message: &str) -> (err: Error)
        ensures
            err@ == Failure::of(ErrorKind::Other, message@),
    {
        Error::new(ErrorKind::Other, message)
    }

    /// An error whose message is `head` followed by `tail`.
    pub fn with_detail(kind: ErrorKind, head: &str, tail: &str) -> (err: Error)
        ensures
            err@ == Failure::of(kind, head@ + tail@),
    {
        Error::with_message(kind, join(head, tail))
    }

    /// Says what went wrong when this error came up, which is kept as the cause.
    pub fn context(self, message: &str) -> (err: Error)
        ensures
            err@ == Failure::caused(message@, self),
    {
        Error { kind: ErrorKind::Other, message: message.to_owned(), cause: Some(Box::new(self)) }
    }

    /// Nothing was found.
    pub fn not_found() -> (err: Error)
        ensures
            err@ == Failure::of(ErrorKind::NotFound, "entity not found"@),
    {
        Error::new(ErrorKind::NotFound, "entity not found")
    }

    /// There is nothing new to hand out yet.
    pub fn would_block() -> (err: Error)
        ensures
            err@ == Failure::of(ErrorKind::WouldBlock, "operation would block"@),
    {
        Error::new(ErrorKind::WouldBlock, "operation would block")
    }
}

/// What an error says is its kind, its message, and the error that caused it.
pub proof fn law_error_says_what_it_holds(err: Error)
    ensures
        err@.kind == err.kind,
        err@.message == err.message@,
        err.cause is None <==> err@.cause is None,
        err.cause matches Some(cause) ==> err@.cause == Some(*cause),
{
}

} // verus!
