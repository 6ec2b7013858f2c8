//! The actions that a script is made of.

use crate::duration::Duration;
use crate::error::IoError;
use vstd::prelude::*;

verus! {

/// One step of a script.
#[derive(Debug)]
pub enum Action {
    /// Bytes still to be read.
    Read(Vec<u8>),
    /// Bytes still to be written.
    Write(Vec<u8>),
    /// A span during which nothing happens.
    Wait(Duration),
    /// An error for the reader, until it is handed out.
    ReadError(Option<IoError>),
    /// An error for the writer, until it is handed out.
    WriteError(Option<IoError>),
    /// A shutdown of the writing side, and whether it was seen.
    WriteShutdown(bool),
    /// The number of zero bytes still to be read.
    ReadZeroes(usize),
    /// The number of zero bytes still to be written.
    WriteZeroes(usize),
    /// The number of bytes still to be written, whatever they are.
    IgnoreWritten(usize),
    /// An end of file, and whether it was seen.
    ReadEof(bool),
    /// From here on everything is allowed.
    StopChecking,
}

/// The mathematical value of an [`Action`].
#[verifier::ext_equal]
pub enum ActionView {
    Read(Seq<u8>),
    Write(Seq<u8>),
    Wait(nat),
    ReadError(Option<IoError>),
    WriteError(Option<IoError>),
    WriteShutdown(bool),
    ReadZeroes(nat),
    WriteZeroes(nat),
    IgnoreWritten(nat),
    ReadEof(bool),
    StopChecking,
}

impl View for Action {
    type V = ActionView;

    open spec fn view(&self) -> ActionView {
        match self {
            Action::Read(data) => ActionView::Read(data@),
            Action::Write(data) => ActionView::Write(data@),
            Action::Wait(span) => ActionView::Wait(span@),
            Action::ReadError(error) => ActionView::ReadError(*error),
            Action::WriteError(error) => ActionView::WriteError(*error),
            Action::WriteShutdown(seen) => ActionView::WriteShutdown(*seen),
            Action::ReadZeroes(n) => ActionView::ReadZeroes(*n as nat),
            Action::WriteZeroes(n) => ActionView::WriteZeroes(*n as nat),
            Action::IgnoreWritten(n) => ActionView::IgnoreWritten(*n as nat),
            Action::ReadEof(seen) => ActionView::ReadEof(*seen),
            Action::StopChecking => ActionView::StopChecking,
        }
    }
}

/// The values of a list of actions.
pub open spec fn views(actions: Seq<Action>) -> Seq<ActionView> {
    actions.map_values(|action: Action| action@)
}

fn clone_bytes(data: &Vec<u8>) -> (copy: Vec<u8>)
    ensures
        copy@ == data@,
{
    vstd::slice::slice_to_vec(data.as_slice())
}

fn clone_error(error: &Option<IoError>) -> (copy: Option<IoError>)
    ensures
        copy == *error,
{
    match error {
        Some(error) => Some(error.clone()),
        None => None,
    }
}

impl Clone for Action {
    fn clone(&self) -> (copy: Action)
        ensures
            copy@ == self@,
    {
        match self {
            Action::Read(data) => Action::Read(clone_bytes(data)),
            Action::Write(data) => Action::Write(clone_bytes(data)),
            Action::Wait(span) => Action::Wait(*span),
            Action::ReadError(error) => Action::ReadError(clone_error(error)),
            Action::WriteError(error) => Action::WriteError(clone_error(error)),
            Action::WriteShutdown(seen) => Action::WriteShutdown(*seen),
            Action::ReadZeroes(n) => Action::ReadZeroes(*n),
            Action::WriteZeroes(n) => Action::WriteZeroes(*n),
            Action::IgnoreWritten(n) => Action::IgnoreWritten(*n),
            Action::ReadEof(seen) => Action::ReadEof(*seen),
            Action::StopChecking => Action::StopChecking,
        }
    }
}

} // verus!
