//! The errors that a mock hands to its user.

use std::sync::Arc;
use vstd::prelude::*;

verus! {

/// The kinds of I/O error that a mock tells apart.
#[derive(Debug, Clone, Copy, PartialEq, Eq, Structural)]
pub enum ErrorKind {
    /// The operation cannot go on yet.
    WouldBlock,
    /// There is nobody to take the data.
    BrokenPipe,
    /// The operation goes against the script.
    InvalidData,
    /// Every other kind.
    Other,
}

/// `std::io::Error`, carried through and never looked into.
#[verifier::external_type_specification]
#[verifier::external_body]
pub struct ExStdIoError(std::io::Error);

/// An I/O error: its kind, and the error of the operating system or of the user that it
/// stands for, where there is one.
#[derive(Debug)]
pub struct IoError {
    pub kind: ErrorKind,
    pub cause: Option<Arc<std::io::Error>>,
}

/// A second handle on a shared error, by `Arc::clone`, which "creates another pointer to the
/// same allocation": what the two handles point to is the same value.
#[verifier::external_body]
fn share(error: &Arc<std::io::Error>) -> (handle: Arc<std::io::Error>)
    ensures
        handle == *error,
{
    Arc::clone(error)
}

impl Clone for IoError {
    fn clone(&self) -> (copy: IoError)
        ensures
            copy == *self,
    {
        let cause = match &self.cause {
            Some(error) => Some(share(error)),
            None => None,
        };
        IoError { kind: self.kind, cause }
    }
}

impl IoError {
    /// An error of a kind, with no cause.
    pub fn new(kind: ErrorKind) -> (error: IoError)
        ensures
            error == (IoError { kind, cause: None }),
    {
        IoError { kind, cause: None }
    }

    /// An error that stands for another one.
    pub fn caused(kind: ErrorKind, cause: std::io::Error) -> (error: IoError)
        ensures
            error.kind == kind,
            error.cause == Some(Arc::new(cause)),
    {
        IoError { kind, cause: Some(Arc::new(cause)) }
    }
}

} // verus!
