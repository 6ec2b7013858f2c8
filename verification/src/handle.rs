//! Adding actions to the script of a mock.

use crate::action::{self, Action, ActionView};
use crate::channel;
use crate::error::IoError;
use crate::scenario;
use crate::text_scenario::{self, ParseError};
use tokio::sync::mpsc::UnboundedSender;
use vstd::prelude::*;
use vstd::string::*;

verus! {

/// A handle to send additional actions to the related mock.
#[derive(Debug)]
pub struct Handle {
    tx: UnboundedSender<Action>,
}

impl View for Handle {
    type V = Seq<ActionView>;

    /// The actions that were sent through the handle.
    closed spec fn view(&self) -> Seq<ActionView> {
        channel::sent(self.tx)
    }
}

/// What it is for a handle to have the channel accept an action: it was offered to the channel,
/// and sent. All actions before it were accepted too.
pub open spec fn accepted(before: Handle, after: Handle, a: ActionView) -> bool {
    &&& after.line() == before.line()
    &&& before.is_open()
    &&& after.offered() == before.offered().push(a)
    &&& after@ == before@.push(a)
}

/// What it is for a handle to have the channel refuse an action: it was offered to the channel,
/// and not sent. No action after it will be accepted.
pub open spec fn refused(before: Handle, after: Handle, a: ActionView) -> bool {
    &&& after.line() == before.line()
    &&& after.offered() == before.offered().push(a)
    &&& after@ == before@
    &&& !after.is_open()
}

/// The mock is gone.
#[derive(Debug, Clone, Copy, PartialEq, Eq)]
pub struct Disconnected;

/// Why a text scenario was not sent.
#[derive(Debug, Clone, Copy)]
pub enum ScenarioError {
    /// The text is no scenario.
    Parse(ParseError),
    /// The mock is gone.
    Disconnected,
}

impl Handle {
    /// The actions that were offered to the channel, whether or not it accepted them.
    pub closed spec fn offered(&self) -> Seq<ActionView> {
        channel::offered(self.tx)
    }

    /// The channel through which actions are sent.
    pub closed spec fn line(&self) -> nat {
        channel::sender_line(self.tx)
    }

    /// The channel has accepted all that it was offered.
    pub open spec fn is_open(&self) -> bool {
        self@ == self.offered()
    }

    pub(crate) fn new(tx: UnboundedSender<Action>) -> (handle: Handle)
        ensures
            handle@ == channel::sent(tx),
            handle.offered() == channel::offered(tx),
            handle.line() == channel::sender_line(tx),
    {
        Handle { tx }
    }

    fn send(&mut self, a: Action) -> (result: Result<&mut Handle, Disconnected>)
        ensures
            match result {
                Ok(handle) => {
                    &&& accepted(*old(self), *handle, a@)
                    &&& *final(self) == *final(handle)
                },
                Err(_) => refused(*old(self), *final(self), a@),
            },
    {
        match channel::send_action(&mut self.tx, a) {
            Ok(_) => Ok(self),
            Err(_) => Err(Disconnected),
        }
    }

    /// Sequence a `read` operation.
    ///
    /// The next operation in the mock's script will be to expect a `read` call
    /// and return `buf`.
    pub fn read(&mut self, buf: &[u8]) -> (result: Result<&mut Handle, Disconnected>)
        ensures
            match result {
                Ok(handle) => {
                    &&& accepted(*old(self), *handle, ActionView::Read(buf@))
                    &&& *final(self) == *final(handle)
                },
                Err(_) => refused(*old(self), *final(self), ActionView::Read(buf@)),
            },
    {
        self.send(Action::Read(vstd::slice::slice_to_vec(buf)))
    }

    /// Sequence a `read` operation, resulting in a specified number of zero bytes.
    ///
    /// Same as [`Self::read`] with a zero buffer, but with less memory consumption.
    ///
    /// The next operation in the mock's script will be to expect a `read` call.
    pub fn read_zeroes(&mut self, nbytes: usize) -> (result: Result<&mut Handle, Disconnected>)
        ensures
            match result {
                Ok(handle) => {
                    &&& accepted(*old(self), *handle, ActionView::ReadZeroes(nbytes as nat))
                    &&& *final(self) == *final(handle)
                },
                Err(_) => refused(*old(self), *final(self), ActionView::ReadZeroes(nbytes as nat)),
            },
    {
        self.send(Action::ReadZeroes(nbytes))
    }

    /// Sequence a read operation that will return 0, i.e. end of file.
    ///
    /// The next operation in the mock's script will be to expect a `read` call.
    pub fn eof(&mut self) -> (result: Result<&mut Handle, Disconnected>)
        ensures
            match result {
                Ok(handle) => {
                    &&& accepted(*old(self), *handle, ActionView::ReadEof(false))
                    &&& *final(self) == *final(handle)
                },
                Err(_) => refused(*old(self), *final(self), ActionView::ReadEof(false)),
            },
    {
        self.send(Action::ReadEof(false))
    }

    /// Sequence a `read` operation error.
    ///
    /// The next operation in the mock's script will be to expect a `read` call
    /// and return `error`.
    pub fn read_error(&mut self, error: IoError) -> (result: Result<&mut Handle, Disconnected>)
        ensures
            match result {
                Ok(handle) => {
                    &&& accepted(*old(self), *handle, ActionView::ReadError(Some(error)))
                    &&& *final(self) == *final(handle)
                },
                Err(_) => refused(*old(self), *final(self), ActionView::ReadError(Some(error))),
            },
    {
        self.send(Action::ReadError(Some(error)))
    }

    /// Sequence a `write` operation.
    ///
    /// The next operation in the mock's script will be to expect a `write`
    /// call.
    pub fn write(&mut self, buf: &[u8]) -> (result: Result<&mut Handle, Disconnected>)
        ensures
            match result {
                Ok(handle) => {
                    &&& accepted(*old(self), *handle, ActionView::Write(buf@))
                    &&& *final(self) == *final(handle)
                },
                Err(_) => refused(*old(self), *final(self), ActionView::Write(buf@)),
            },
    {
        self.send(Action::Write(vstd::slice::slice_to_vec(buf)))
    }

    /// Sequence a `write` operation.
    ///
    /// The next operation in the mock's script will be to expect a `write`
    /// call. The written bytes will be asserted to be equal to zero.
    pub fn write_zeroes(&mut self, nbytes: usize) -> (result: Result<&mut Handle, Disconnected>)
        ensures
            match result {
                Ok(handle) => {
                    &&& accepted(*old(self), *handle, ActionView::WriteZeroes(nbytes as nat))
                    &&& *final(self) == *final(handle)
                },
                Err(_) => refused(*old(self), *final(self), ActionView::WriteZeroes(nbytes as nat)),
            },
    {
        self.send(Action::WriteZeroes(nbytes))
    }

    /// Sequence a `write` operation.
    ///
    /// The next operation in the mock's script will be to expect a `write`
    /// call. The written bytes will not be checked.
    ///
    /// Note that while content of the bytes are ignored,
    /// specified number of bytes still must be written to the mock to avoid the failure.
    pub fn write_ignore(&mut self, nbytes: usize) -> (result: Result<&mut Handle, Disconnected>)
        ensures
            match result {
                Ok(handle) => {
                    &&& accepted(*old(self), *handle, ActionView::IgnoreWritten(nbytes as nat))
                    &&& *final(self) == *final(handle)
                },
                Err(_) => refused(*old(self), *final(self), ActionView::IgnoreWritten(nbytes as nat)),
            },
    {
        self.send(Action::IgnoreWritten(nbytes))
    }

    /// Sequence a `write` operation error.
    ///
    /// The next operation in the mock's script will be to expect a `write`
    /// call error.
    pub fn write_error(&mut self, error: IoError) -> (result: Result<&mut Handle, Disconnected>)
        ensures
            match result {
                Ok(handle) => {
                    &&& accepted(*old(self), *handle, ActionView::WriteError(Some(error)))
                    &&& *final(self) == *final(handle)
                },
                Err(_) => refused(*old(self), *final(self), ActionView::WriteError(Some(error))),
            },
    {
        self.send(Action::WriteError(Some(error)))
    }

    /// Sequence a `shutdown` operation.
    ///
    /// Note that unlike with `Builder::write_shutdown` you need to do
    /// `Builder::enable_shutdown_checking` explicitly.
    pub fn write_shutdown(&mut self) -> (result: Result<&mut Handle, Disconnected>)
        ensures
            match result {
                Ok(handle) => {
                    &&& accepted(*old(self), *handle, ActionView::WriteShutdown(false))
                    &&& *final(self) == *final(handle)
                },
                Err(_) => refused(*old(self), *final(self), ActionView::WriteShutdown(false)),
            },
    {
        self.send(Action::WriteShutdown(false))
    }

    /// Sequence a special event that makes this mock stop asserting any operation (i.e. allow
    /// everything).
    ///
    /// Reaching this means the test is already succeeded and possible
    /// further operations are likely irrelevant.
    ///
    /// More reads can still be sequenced after this.
    pub fn stop_checking(&mut self) -> (result: Result<&mut Handle, Disconnected>)
        ensures
            match result {
                Ok(handle) => {
                    &&& accepted(*old(self), *handle, ActionView::StopChecking)
                    &&& *final(self) == *final(handle)
                },
                Err(_) => refused(*old(self), *final(self), ActionView::StopChecking),
            },
    {
        self.send(Action::StopChecking)
    }

    /// Sequence actions, until one of them cannot be sent.
    pub fn send_all(&mut self, actions: Vec<Action>) -> (result: Result<&mut Handle, Disconnected>)
        ensures
            match result {
                Ok(handle) => {
                    &&& handle.line() == old(self).line()
                    &&& actions@.len() > 0 ==> old(self).is_open()
                    &&& handle.offered() == old(self).offered() + action::views(actions@)
                    &&& handle@ == old(self)@ + action::views(actions@)
                    &&& *final(self) == *final(handle)
                },
                Err(_) => {
                    &&& final(self).line() == old(self).line()
                    &&& !final(self).is_open()
                    &&& exists|n: int|
                        {
                            &&& 0 <= n < actions@.len()
                            &&& final(self)@ == old(self)@ + #[trigger] action::views(
                                actions@,
                            ).take(n)
                            &&& final(self).offered() == old(self).offered() + action::views(
                                actions@,
                            ).take(n + 1)
                        }
                },
            },
    {
        let ghost all = action::views(actions@);
        assert(all.take(0) =~= Seq::empty());
        assert(self@ + Seq::<ActionView>::empty() =~= self@);
        assert(self.offered() + Seq::<ActionView>::empty() =~= self.offered());
        for a in it: actions.into_iter()
            invariant
                all == action::views(it.seq()),
                it.seq() == actions@,
                self@ == old(self)@ + all.take(it.index() as int),
                self.offered() == old(self).offered() + all.take(it.index() as int),
                it.index() > 0 ==> old(self).is_open(),
                self.line() == old(self).line(),
        {
            let ghost k = it.index() as int;
            proof {
                assert(all.take(k + 1) =~= all.take(k).push(a@));
                assert(old(self)@ + all.take(k + 1) =~= (old(self)@ + all.take(k)).push(a@));
                assert(old(self).offered() + all.take(k + 1) =~= (old(self).offered() + all.take(
                    k,
                )).push(a@));
            }
            match channel::send_action(&mut self.tx, a) {
                Ok(_) => {},
                Err(_) => {
                    return Err(Disconnected);
                },
            }
        }
        assert(all.take(all.len() as int) =~= all);
        Ok(self)
    }

    /// Sequence multiple operations using a special text scenario.
    ///
    /// See `Builder::text_scenario` for the description of the text content.
    ///
    /// Note that `N` (set name) command is ignored.
    pub fn text_scenario(&mut self, scenario: &str) -> (result: Result<&mut Handle, ScenarioError>)
        ensures
            match scenario::parse(scenario.spec_bytes()) {
                Ok(given) => match result {
                    Ok(handle) => {
                        &&& handle.line() == old(self).line()
                        &&& given.actions.len() > 0 ==> old(self).is_open()
                        &&& handle.offered() == old(self).offered() + given.actions
                        &&& handle@ == old(self)@ + given.actions
                        &&& *final(self) == *final(handle)
                    },
                    Err(error) => {
                        &&& error is Disconnected
                        &&& final(self).line() == old(self).line()
                    &&& !final(self).is_open()
                        &&& exists|n: int|
                            {
                                &&& 0 <= n < given.actions.len()
                                &&& final(self)@ == old(self)@ + #[trigger] given.actions.take(n)
                                &&& final(self).offered() == old(self).offered()
                                    + given.actions.take(n + 1)
                            }
                    },
                },
                Err(problem) => {
                    &&& result matches Err(ScenarioError::Parse(error))
                    &&& error@ == problem
                    &&& *final(self) == *old(self)
                },
            },
    {
        match text_scenario::parse_text_scenario(scenario) {
            Ok((actions, _name)) => match self.send_all(actions) {
                Ok(handle) => Ok(handle),
                Err(_) => Err(ScenarioError::Disconnected),
            },
            Err(error) => Err(ScenarioError::Parse(error)),
        }
    }
}

} // verus!
