//! Why a mock does not carry an operation out.

use crate::error::IoError;
use crate::script::{FailureView, RefusalView};
use vstd::prelude::*;

verus! {

/// A departure from the script that calls for a panic.
#[derive(Debug)]
pub enum Failure {
    /// Bytes were written that differ from the expected ones.
    Bytes { expected: Vec<u8>, actual: Vec<u8>, message: String },
    /// A byte was written where a zero was expected.
    NonZero { byte: u8, message: String },
    /// The operation, or the end of the mock, came too early or too late.
    Script { message: String },
}

impl View for Failure {
    type V = FailureView;

    open spec fn view(&self) -> FailureView {
        match self {
            Failure::Bytes { expected, actual, message } => FailureView::Bytes {
                expected: expected@,
                actual: actual@,
                message: message@,
            },
            Failure::NonZero { byte, message } => FailureView::NonZero {
                byte: *byte,
                message: message@,
            },
            Failure::Script { message } => FailureView::Script { message: message@ },
        }
    }
}

/// Why an operation was not carried out.
#[derive(Debug)]
pub enum Refusal {
    /// The operation returns an error.
    Io(IoError),
    /// The operation calls for a panic.
    Failure(Failure),
}

impl View for Refusal {
    type V = RefusalView;

    open spec fn view(&self) -> RefusalView {
        match self {
            Refusal::Io(error) => RefusalView::Io(*error),
            Refusal::Failure(failure) => RefusalView::Failure(failure@),
        }
    }
}

/// The value of the result of a write.
pub open spec fn write_view(result: Result<usize, Refusal>) -> Result<nat, RefusalView> {
    match result {
        Ok(n) => Ok(n as nat),
        Err(refusal) => Err(refusal@),
    }
}

/// The value of the result of a shutdown.
pub open spec fn shutdown_view(result: Result<(), Refusal>) -> Result<(), RefusalView> {
    match result {
        Ok(_) => Ok(()),
        Err(refusal) => Err(refusal@),
    }
}

/// The value of the result of the end of a mock.
pub open spec fn finish_view(result: Result<(), Failure>) -> Result<(), FailureView> {
    match result {
        Ok(_) => Ok(()),
        Err(failure) => Err(failure@),
    }
}

} // verus!
