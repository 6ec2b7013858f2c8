//! Building scripts, and mocks that follow them.

use crate::action::{self, Action, ActionView};
use crate::channel;
use crate::duration::{self, Duration};
use crate::error::IoError;
use crate::handle::Handle;
use crate::inner::Inner;
use crate::mock::Mock;
use crate::outcome::MockOutcome;
use crate::scenario;
use crate::script::{self, IncomingView};
use crate::text_scenario::{self, ParseError};
use std::collections::VecDeque;
use tokio::sync::oneshot;
use vstd::prelude::*;
use vstd::string::*;
use vstd::utf8::*;

verus! {

/// Builds [`Mock`] values.
#[derive(Debug)]
pub struct Builder {
    actions: VecDeque<Action>,
    name: String,
    shutdown_checking_enabled: bool,
}

/// The mathematical value of a [`Builder`].
#[verifier::ext_equal]
pub struct BuilderView {
    /// The script so far.
    pub actions: Seq<ActionView>,
    /// The name of the mock, empty if it has none.
    pub name: Seq<char>,
    /// Whether shutdowns are held to the script.
    pub shutdown_checking_enabled: bool,
}

impl BuilderView {
    /// The builder with an action added to the script.
    pub open spec fn with(self, a: ActionView) -> BuilderView {
        BuilderView { actions: self.actions.push(a), ..self }
    }

    /// The builder of mocks that hold shutdowns to the script.
    pub open spec fn checking_shutdown(self) -> BuilderView {
        BuilderView { shutdown_checking_enabled: true, ..self }
    }

    /// The builder after the actions and the name that a text scenario gives. A shutdown among
    /// the actions has the mocks hold shutdowns to the script.
    pub open spec fn extended(self, actions: Seq<ActionView>, name: Option<Seq<char>>) -> BuilderView {
        BuilderView {
            actions: self.actions + actions,
            name: match name {
                Some(name) => name,
                None => self.name,
            },
            shutdown_checking_enabled: self.shutdown_checking_enabled || has_shutdown(actions),
        }
    }

    /// The state in which a mock begins. If there is a `reporter`, departures from the script go
    /// into a report, and the report goes there.
    pub open spec fn start(self, reporter: Option<nat>) -> script::State {
        script::start(self.actions, self.name, self.shutdown_checking_enabled, reporter)
    }
}

impl View for Builder {
    type V = BuilderView;

    closed spec fn view(&self) -> BuilderView {
        BuilderView {
            actions: action::views(self.actions@),
            name: self.name@,
            shutdown_checking_enabled: self.shutdown_checking_enabled,
        }
    }
}

/// The span that a wait lasts at least, in nanoseconds.
pub open spec fn at_least_a_milli(span: nat) -> nat {
    if span >= duration::NANOS_PER_MILLI {
        span
    } else {
        duration::NANOS_PER_MILLI as nat
    }
}

/// The characters of a name.
pub open spec fn name_view(name: Option<String>) -> Option<Seq<char>> {
    match name {
        Some(name) => Some(name@),
        None => None,
    }
}

/// Whether a shutdown is among the actions.
pub open spec fn has_shutdown(actions: Seq<ActionView>) -> bool {
    exists|i: int| 0 <= i < actions.len() && #[trigger] actions[i] is WriteShutdown
}

/// A copy of a script.
fn clone_actions(actions: &VecDeque<Action>) -> (copy: VecDeque<Action>)
    ensures
        action::views(copy@) == action::views(actions@),
{
    let copy = actions.clone();
    assert(action::views(copy@) =~= action::views(actions@)) by {
        assert forall|i: int| 0 <= i < actions@.len() implies #[trigger] copy@[i]@
            == actions@[i]@ by {
            assert(cloned::<Action>(actions@[i], copy@[i]));
        }
    }
    copy
}

impl Clone for Builder {
    fn clone(&self) -> (copy: Builder)
        ensures
            copy@ == self@,
    {
        Builder {
            actions: clone_actions(&self.actions),
            name: self.name.clone(),
            shutdown_checking_enabled: self.shutdown_checking_enabled,
        }
    }
}

impl Default for Builder {
    fn default() -> (builder: Builder)
        ensures
            builder@ == (BuilderView {
                actions: Seq::empty(),
                name: Seq::empty(),
                shutdown_checking_enabled: false,
            }),
    {
        let builder = Builder {
            actions: VecDeque::new(),
            name: String::new(),
            shutdown_checking_enabled: false,
        };
        assert(builder@.actions =~= Seq::empty());
        builder
    }
}

impl Builder {
    /// Return a new, empty `Builder`.
    pub fn new() -> (builder: Builder)
        ensures
            builder@ == (BuilderView {
                actions: Seq::empty(),
                name: Seq::empty(),
                shutdown_checking_enabled: false,
            }),
    {
        Builder::default()
    }

    fn push(&mut self, a: Action)
        ensures
            final(self)@ == old(self)@.with(a@),
    {
        self.actions.push_back(a);
        assert(self@ =~= old(self)@.with(a@));
    }

    /// Sequence a `read` operation.
    ///
    /// The next operation in the mock's script will be to expect a `read` call
    /// and return `buf`.
    pub fn read(&mut self, buf: &[u8]) -> (builder: &mut Builder)
        ensures
            builder@ == old(self)@.with(ActionView::Read(buf@)),
            *final(self) == *final(builder),
    {
        self.push(Action::Read(vstd::slice::slice_to_vec(buf)));
        self
    }

    /// Sequence a `read` operation, resulting in a specified number of zero bytes.
    ///
    /// Same as [`Self::read`] with a zero buffer, but with less memory consumption.
    ///
    /// The next operation in the mock's script will be to expect a `read` call.
    pub fn read_zeroes(&mut self, nbytes: usize) -> (builder: &mut Builder)
        ensures
            builder@ == old(self)@.with(ActionView::ReadZeroes(nbytes as nat)),
            *final(self) == *final(builder),
    {
        self.push(Action::ReadZeroes(nbytes));
        self
    }

    /// Sequence a read operation that will return 0, i.e. end of file.
    ///
    /// The next operation in the mock's script will be to expect a `read` call.
    pub fn eof(&mut self) -> (builder: &mut Builder)
        ensures
            builder@ == old(self)@.with(ActionView::ReadEof(false)),
            *final(self) == *final(builder),
    {
        self.push(Action::ReadEof(false));
        self
    }

    /// Sequence a `read` operation that produces an error.
    ///
    /// The next operation in the mock's script will be to expect a `read` call
    /// and return `error`.
    pub fn read_error(&mut self, error: IoError) -> (builder: &mut Builder)
        ensures
            builder@ == old(self)@.with(ActionView::ReadError(Some(error))),
            *final(self) == *final(builder),
    {
        self.push(Action::ReadError(Some(error)));
        self
    }

    /// Sequence a `write` operation.
    ///
    /// The next operation in the mock's script will be to expect a `write`
    /// call.
    pub fn write(&mut self, buf: &[u8]) -> (builder: &mut Builder)
        ensures
            builder@ == old(self)@.with(ActionView::Write(buf@)),
            *final(self) == *final(builder),
    {
        self.push(Action::Write(vstd::slice::slice_to_vec(buf)));
        self
    }

    /// Sequence a `write` operation.
    ///
    /// The next operation in the mock's script will be to expect a `write`
    /// call. The written bytes will be asserted to be equal to zero.
    pub fn write_zeroes(&mut self, nbytes: usize) -> (builder: &mut Builder)
        ensures
            builder@ == old(self)@.with(ActionView::WriteZeroes(nbytes as nat)),
            *final(self) == *final(builder),
    {
        self.push(Action::WriteZeroes(nbytes));
        self
    }

    /// Sequence a `write` operation.
    ///
    /// The next operation in the mock's script will be to expect a `write`
    /// call. The written bytes will not be checked.
    ///
    /// Note that while content of the bytes are ignored,
    /// specified number of bytes still must be written to the mock to avoid the failure.
    pub fn write_ignore(&mut self, nbytes: usize) -> (builder: &mut Builder)
        ensures
            builder@ == old(self)@.with(ActionView::IgnoreWritten(nbytes as nat)),
            *final(self) == *final(builder),
    {
        self.push(Action::IgnoreWritten(nbytes));
        self
    }

    /// Sequence a `write` operation that produces an error.
    ///
    /// The next operation in the mock's script will be to expect a `write`
    /// call that provides `error`.
    pub fn write_error(&mut self, error: IoError) -> (builder: &mut Builder)
        ensures
            builder@ == old(self)@.with(ActionView::WriteError(Some(error))),
            *final(self) == *final(builder),
    {
        self.push(Action::WriteError(Some(error)));
        self
    }

    /// Check that shutdowns happen where needed.
    ///
    /// It is disabled by default.
    pub fn enable_shutdown_checking(&mut self) -> (builder: &mut Builder)
        ensures
            builder@ == old(self)@.checking_shutdown(),
            *final(self) == *final(builder),
    {
        self.shutdown_checking_enabled = true;
        self
    }

    /// Sequence a `shutdown` operation. A write or a read that comes in its place is objected to.
    ///
    /// Automatically does [`Self::enable_shutdown_checking`].
    pub fn write_shutdown(&mut self) -> (builder: &mut Builder)
        ensures
            builder@ == old(self)@.checking_shutdown().with(ActionView::WriteShutdown(false)),
            *final(self) == *final(builder),
    {
        self.shutdown_checking_enabled = true;
        self.push(Action::WriteShutdown(false));
        self
    }

    /// Sequence a special event that makes this mock stop asserting any operation (i.e. allow
    /// everything).
    ///
    /// Reaching this means the test is already succeeded and possible
    /// further operations are likely irrelevant.
    ///
    /// More reads can still be sequenced after this.
    pub fn stop_checking(&mut self) -> (builder: &mut Builder)
        ensures
            builder@ == old(self)@.with(ActionView::StopChecking),
            *final(self) == *final(builder),
    {
        self.push(Action::StopChecking);
        self
    }

    /// Sequence a wait.
    ///
    /// The next operation in the mock's script will be to wait without doing so
    /// for `duration` amount of time, and for a millisecond at least.
    pub fn wait(&mut self, duration: Duration) -> (builder: &mut Builder)
        ensures
            builder@ == old(self)@.with(ActionView::Wait(at_least_a_milli(duration@))),
            *final(self) == *final(builder),
    {
        self.push(Action::Wait(duration.longer(Duration::from_millis(1))));
        self
    }

    /// Set name of the mock IO object to include in panic messages and debug output: the text that
    /// `into` makes of `name`, which of a `&str` is that text.
    pub fn name<N: Into<String>>(&mut self, name: N) -> (builder: &mut Builder)
        ensures
            exists|text: String|
                call_ensures(<N as Into<String>>::into, (name,), text) && builder@ == (
                BuilderView { name: #[trigger] text@, ..old(self)@ }),
            *final(self) == *final(builder),
    {
        let text: String = name.into();
        let ghost given = text;
        self.name = text;
        assert(call_ensures(<N as Into<String>>::into, (name,), given));
        assert(self@ == (BuilderView { name: given@, ..old(self)@ }));
        self
    }

    /// Sequence the actions of a text scenario, and set the name that it gives, if it gives one.
    ///
    /// Like [`Self::write_shutdown`], a shutdown among the actions automatically does
    /// [`Self::enable_shutdown_checking`].
    pub fn extend(&mut self, actions: Vec<Action>, name: Option<String>) -> (builder: &mut Builder)
        ensures
            builder@ == old(self)@.extended(action::views(actions@), name_view(name)),
            *final(self) == *final(builder),
    {
        let ghost all = action::views(actions@);
        let ghost given = name_view(name);
        match name {
            Some(name) => {
                self.name = name;
            },
            None => {},
        }
        let mut shuts_down = false;
        assert(all.take(0) =~= Seq::empty());
        assert(self@.actions + Seq::<ActionView>::empty() =~= self@.actions);
        for a in it: actions.into_iter()
            invariant
                all == action::views(it.seq()),
                self@.actions == old(self)@.actions + all.take(it.index() as int),
                self@.name == old(self)@.extended(all, given).name,
                self@.shutdown_checking_enabled == old(self)@.shutdown_checking_enabled,
                shuts_down == has_shutdown(all.take(it.index() as int)),
        {
            let ghost k = it.index() as int;
            proof {
                assert(all[k] == a@);
                assert(all.take(k + 1) =~= all.take(k).push(a@));
                assert(old(self)@.actions + all.take(k + 1) =~= (old(self)@.actions + all.take(
                    k,
                )).push(a@));
                if has_shutdown(all.take(k)) {
                    let j = choose|j: int|
                        0 <= j < k && #[trigger] all.take(k)[j] is WriteShutdown;
                    assert(all.take(k + 1)[j] is WriteShutdown);
                }
                if has_shutdown(all.take(k + 1)) && !(a@ is WriteShutdown) {
                    let j = choose|j: int|
                        0 <= j < k + 1 && #[trigger] all.take(k + 1)[j] is WriteShutdown;
                    assert(all.take(k)[j] is WriteShutdown);
                }
                if a@ is WriteShutdown {
                    assert(all.take(k + 1)[k] is WriteShutdown);
                }
            }
            if let Action::WriteShutdown(_) = &a {
                shuts_down = true;
            }
            self.push(a);
        }
        assert(all.take(all.len() as int) =~= all);
        if shuts_down {
            self.shutdown_checking_enabled = true;
        }
        self
    }

    /// Sequence multiple operations using a special text scenario.
    ///
    /// Text scenario commands consist of a command character, subcommand
    /// character (if needed), content (if needed) and `|` terminator/separator.
    ///
    /// Parsing is not very strict.
    ///
    /// Commands:
    ///
    /// * `R` - sequence specified bytes to be read
    /// * `W` - sequence specified bytes to be written
    /// * `ZR` - sequence specified number of zero bytes to be read
    /// * `ZW` - sequence specified number of zero bytes to be written
    /// * `I` - sequence specified number of written bytes to be ignored
    /// * `X` - sequence a EOF event
    /// * `Q` - sequence stop_checking event
    /// * `ER` - sequence a read error
    /// * `EW` - sequence a write error
    /// * `D` - sequence a write shutdown
    /// * `T` - sequence a sleep for a specified number of milliseconds
    /// * `N` - set name of this mock stream object
    ///
    /// Most characters after `R` or `W` or `N` become content of the buffer.
    /// Exceptions: `|` character that marks end of command, leading (but not trailing) whitespace
    /// and escape sequences starting with `\`, like `\n` or `\xFF`.
    ///
    /// Numbers for `ZR`, `ZW`, `I` or `T` can be prefixed with `x` or `0x` to use hex instead of
    /// dec.
    ///
    /// Examples:
    ///
    /// * `R hello|W world` is equivalent to `.read(b"hello").write(b"world")`
    /// * `R \x55\x00| ZR x5500| R \x00\x03| ZR 3` is equivalent to
    ///   `.read(b"\x55\x00").read_zeroes(0x5500).read(b"\x00\x03").read_zeroes(3)`
    /// * `R cat; echo qqq\n| R 1234|W 1234| R 56|W 56| X | W qqq|`
    /// * `N calc|R 2+2|W 4|R 3+$RANDOM|Q`
    /// * `R PING|W PONG|T5000|R PING|W PONG|T5000|ER`
    ///
    /// Mnemonics/explanations:
    ///
    /// * `T` - timeout, timer
    /// * `ZR` instead of `RZ` because of `Z` would be interpreted as a content of `R`
    /// * `Q` - quiet mode, quit checking, quash all assertions
    /// * `X` - eXit reading, eXtend writer span when reading is already finished. `E` is already
    ///   busy for injected errors.
    /// * `D` - shutDown, `^D` to send EOF in console
    pub fn text_scenario(&mut self, scenario: &str) -> (result: Result<&mut Builder, ParseError>)
        ensures
            match scenario::parse(scenario.spec_bytes()) {
                Ok(given) => {
                    &&& result matches Ok(builder)
                    &&& builder@ == old(self)@.extended(
                        given.actions,
                        match given.name {
                            Some(bytes) => Some(text_scenario::lossy_text(bytes)),
                            None => None,
                        },
                    )
                    &&& given.name matches Some(bytes) ==> (valid_utf8(bytes) ==> builder@.name
                        == decode_utf8(bytes))
                    &&& *final(self) == *final(builder)
                },
                Err(problem) => {
                    &&& result matches Err(error)
                    &&& error@ == problem
                    &&& *final(self) == *old(self)
                },
            },
    {
        match text_scenario::parse_text_scenario(scenario) {
            Ok((actions, name)) => Ok(self.extend(actions, name)),
            Err(error) => Err(error),
        }
    }

    /// Build a `Mock` value paired with a handle
    pub fn build_with_handle(&mut self) -> (pair: (Mock, Handle))
        ensures
            pair.0@ == old(self)@.start(None),
            pair.0.looks() == Seq::<IncomingView>::empty(),
            pair.0.readings() == Seq::<nat>::empty(),
            pair.1@ == Seq::<ActionView>::empty(),
            pair.1.is_open(),
            pair.0.line() == pair.1.line(),
            final(self)@ == old(self)@,
    {
        let (sender, receiver) = channel::action_channel();
        let inner = Inner::new(
            clone_actions(&self.actions),
            self.name.clone(),
            self.shutdown_checking_enabled,
            None,
        );
        (Mock::new(inner, channel::action_stream(receiver)), Handle::new(sender))
    }

    /// Build a `Mock` value according to the defined script.
    pub fn build(&mut self) -> (mock: Mock)
        ensures
            mock@ == old(self)@.start(None),
            mock.looks() == Seq::<IncomingView>::empty(),
            mock.readings() == Seq::<nat>::empty(),
            final(self)@ == old(self)@,
    {
        let (mock, _handle) = self.build_with_handle();
        mock
    }

    /// Build a `Mock` value that should not normally panic.
    ///
    /// Instead of panicking when a mismatch is detected, it should signal the outcome to the
    /// channel.
    pub fn build_panicless(&mut self) -> (parts: (Mock, Handle, oneshot::Receiver<MockOutcome>))
        ensures
            parts.0@ == old(self)@.start(Some(channel::outcome_line(parts.2))),
            parts.0.looks() == Seq::<IncomingView>::empty(),
            parts.0.readings() == Seq::<nat>::empty(),
            parts.1@ == Seq::<ActionView>::empty(),
            parts.1.is_open(),
            parts.0.line() == parts.1.line(),
            final(self)@ == old(self)@,
    {
        let (sender, receiver) = channel::action_channel();
        let (reporter, report) = channel::report_channel();
        let inner = Inner::new(
            clone_actions(&self.actions),
            self.name.clone(),
            self.shutdown_checking_enabled,
            Some(reporter),
        );
        (Mock::new(inner, channel::action_stream(receiver)), Handle::new(sender), report)
    }
}

} // verus!
