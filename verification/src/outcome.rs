//! The final report of a mock that does not panic.

use crate::text;
use vstd::prelude::*;
use vstd::string::*;

verus! {

/// What a mock found wrong.
#[derive(Debug, PartialEq, Eq, Clone, Copy)]
pub enum MockOutcomeError {
    UnexpectedWrite,
    WriteInsteadOfShutdown,
    ShutdownInsteadOfWrite,
    WrittenByteMismatch { expected: u8, actual: u8 },
    RemainingUnreadData,
    RemainingUnwrittenData,
    Other,
}

/// The final report of a mock.
#[derive(Debug, PartialEq, Eq, Clone, Copy)]
pub struct MockOutcome {
    /// `Ok` if the mock found nothing wrong, `Err` otherwise.
    pub outcome: Result<(), MockOutcomeError>,
    /// The number of bytes read until the report was made.
    pub total_read_bytes: u64,
    /// The number of bytes written until the report was made.
    pub total_written_bytes: u64,
}

impl MockOutcomeError {
    /// The text of the error.
    pub open spec fn text(self) -> Seq<char> {
        match self {
            MockOutcomeError::UnexpectedWrite => "unexpected write"@,
            MockOutcomeError::WrittenByteMismatch { expected, actual } => {
                "mismatching byte, expected "@ + text::decimal(expected as nat) + ", got "@
                    + text::decimal(actual as nat)
            },
            MockOutcomeError::RemainingUnreadData => "data remains to be read"@,
            MockOutcomeError::RemainingUnwrittenData => "data remains to be written"@,
            MockOutcomeError::Other => "other error"@,
            MockOutcomeError::WriteInsteadOfShutdown => "write where shutdown was expected"@,
            MockOutcomeError::ShutdownInsteadOfWrite => "shutdown where a write was expected"@,
        }
    }

    /// Writes the error out.
    pub fn describe(&self) -> (message: String)
        ensures
            message@ == self.text(),
    {
        match self {
            MockOutcomeError::UnexpectedWrite => "unexpected write".to_owned(),
            MockOutcomeError::WrittenByteMismatch { expected, actual } => {
                let mut message = "mismatching byte, expected ".to_owned();
                text::append_decimal(&mut message, *expected as u64);
                message.append(", got ");
                text::append_decimal(&mut message, *actual as u64);
                message
            },
            MockOutcomeError::RemainingUnreadData => "data remains to be read".to_owned(),
            MockOutcomeError::RemainingUnwrittenData => "data remains to be written".to_owned(),
            MockOutcomeError::Other => "other error".to_owned(),
            MockOutcomeError::WriteInsteadOfShutdown => {
                "write where shutdown was expected".to_owned()
            },
            MockOutcomeError::ShutdownInsteadOfWrite => {
                "shutdown where a write was expected".to_owned()
            },
        }
    }
}

impl MockOutcome {
    /// The text of the report.
    pub open spec fn text(self) -> Seq<char> {
        let verdict = match self.outcome {
            Ok(_) => "success after reading "@,
            Err(error) => "error ("@ + error.text() + ") after reading "@,
        };
        verdict + text::decimal(self.total_read_bytes as nat) + " and writing "@ + text::decimal(
            self.total_written_bytes as nat,
        ) + " bytes"@
    }

    /// Writes the report out.
    pub fn describe(&self) -> (message: String)
        ensures
            message@ == self.text(),
    {
        let mut message = match self.outcome {
            Ok(_) => "success after reading ".to_owned(),
            Err(error) => {
                let mut message = "error (".to_owned();
                message.append(error.describe().as_str());
                message.append(") after reading ");
                message
            },
        };
        text::append_decimal(&mut message, self.total_read_bytes);
        message.append(" and writing ");
        text::append_decimal(&mut message, self.total_written_bytes);
        message.append(" bytes");
        message
    }
}

} // verus!
