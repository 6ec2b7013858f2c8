//! An I/O object that follows a script.

use crate::action::Action;
use crate::channel;
use crate::duration::Duration;
use crate::error::{ErrorKind, IoError};
use crate::failure::{self, Failure, Refusal};
use crate::inner::{Chunk, Inner};
use crate::laws::streams;
use crate::outcome::MockOutcomeError;
use crate::script::{self, EventView, IncomingView, State, StepView};
use tokio_stream::wrappers::UnboundedReceiverStream;
use vstd::prelude::*;
use vstd::string::*;

verus! {

/// What comes of a look at the channel through which actions are added to the script.
#[derive(Debug)]
pub enum Incoming {
    /// There is no action for now.
    Pending,
    /// There will be no more actions.
    Closed,
    /// The next action.
    Action(Action),
}

impl View for Incoming {
    type V = IncomingView;

    open spec fn view(&self) -> IncomingView {
        match self {
            Incoming::Pending => IncomingView::Pending,
            Incoming::Closed => IncomingView::Closed,
            Incoming::Action(a) => IncomingView::Action(a@),
        }
    }
}

/// What whoever polls a mock tells it.
#[derive(Debug)]
pub enum Event {
    /// An operation begins, or begins again.
    Begin,
    /// What came of the look at the channel that opens the operation.
    Opening(Incoming),
    /// What came of a later look at the channel.
    Incoming(Incoming),
}

impl View for Event {
    type V = EventView;

    open spec fn view(&self) -> EventView {
        match self {
            Event::Begin => EventView::Begin,
            Event::Opening(incoming) => EventView::Opening(incoming@),
            Event::Incoming(incoming) => EventView::Incoming(incoming@),
        }
    }
}

/// What whoever polls a mock is to do next.
#[derive(Debug)]
pub enum Step<T> {
    /// Return the result, and first wake the reader that waits for a write if `wake_reader`.
    Ready { result: Result<T, IoError>, wake_reader: bool },
    /// Sleep for a span, and poll the mock again.
    Sleep(Duration),
    /// Wait for a write that lets the script go on.
    AwaitWrite,
    /// Wait.
    Pending,
    /// Look at the channel, and hand over what came of it as an opening.
    Open,
    /// Look at the channel, and hand over what came of it.
    Poll,
    /// Begin again.
    Proceed,
    /// Panic.
    Panic(Failure),
}

impl<T: View> View for Step<T> {
    type V = StepView<T::V>;

    open spec fn view(&self) -> StepView<T::V> {
        match self {
            Step::Ready { result, wake_reader } => StepView::Ready {
                result: match result {
                    Ok(value) => Ok(value@),
                    Err(error) => Err(*error),
                },
                wake_reader: *wake_reader,
            },
            Step::Sleep(span) => StepView::Sleep(span@),
            Step::AwaitWrite => StepView::AwaitWrite,
            Step::Pending => StepView::Pending,
            Step::Open => StepView::Open,
            Step::Poll => StepView::Poll,
            Step::Proceed => StepView::Proceed,
            Step::Panic(failure) => StepView::Panic(failure@),
        }
    }
}

/// An I/O object that follows a script.
///
/// Whoever polls it performs the [`Step`] that it answers with: only there are futures polled
/// and results returned.
pub struct Mock {
    inner: Inner,
    clock: tokio::time::Instant,
    incoming: UnboundedReceiverStream<Action>,
}

impl View for Mock {
    type V = State;

    closed spec fn view(&self) -> State {
        self.inner@
    }
}

impl Mock {
    /// What came of the looks at the channel.
    pub closed spec fn looks(&self) -> Seq<IncomingView> {
        channel::looks(self.incoming)
    }

    /// The channel through which actions are added to the script.
    pub closed spec fn line(&self) -> nat {
        channel::stream_line(self.incoming)
    }

    /// The times since the mock was made that it has read, in nanoseconds.
    pub closed spec fn readings(&self) -> Seq<nat> {
        channel::readings(self.clock)
    }

    /// A mock in a given state, whose clock starts now.
    pub(crate) fn new(inner: Inner, incoming: UnboundedReceiverStream<Action>) -> (mock: Mock)
        ensures
            mock@ == inner@,
            mock.looks() == channel::looks(incoming),
            mock.line() == channel::stream_line(incoming),
            mock.readings() == Seq::<nat>::empty(),
    {
        Mock { inner, clock: channel::start_clock(), incoming }
    }

    /// Reads the time since the mock was made, which is never shorter than it was before.
    pub fn now(&mut self) -> (now: Duration)
        ensures
            now.nanos < 1_000_000_000,
            final(self).readings() == old(self).readings().push(now@),
            old(self).readings().len() > 0 ==> old(self).readings().last() <= now@,
            final(self)@ == old(self)@,
            final(self).looks() == old(self).looks(),
            final(self).line() == old(self).line(),
    {
        channel::elapsed(&mut self.clock)
    }

    /// Whether shutdowns are held to the script.
    pub fn checks_shutdown(&self) -> (checks: bool)
        ensures
            checks == self@.shutdown_checking_enabled,
    {
        self.inner.checks_shutdown()
    }

    /// The number of bytes read so far.
    pub fn read_bytes(&self) -> (n: u64)
        ensures
            n == self@.read_bytes,
    {
        self.inner.read_bytes()
    }

    /// The number of bytes written so far.
    pub fn written_bytes(&self) -> (n: u64)
        ensures
            n == self@.written_bytes,
    {
        self.inner.written_bytes()
    }

    /// The state of the mock, for a message.
    pub fn pmsg(&self) -> (message: String)
        ensures
            message@ == script::summary(self@),
    {
        self.inner.pmsg()
    }

    /// The mock, for debugging.
    pub fn debug_text(&self) -> (message: String)
        ensures
            message@ == script::debug_text(self@),
    {
        self.inner.debug_text()
    }

    /// Whether a reader that waits for a write is to be woken at time `now`.
    fn maybe_wakeup_reader(&mut self, now: Duration) -> (wake: bool)
        ensures
            final(self)@ == script::advance(old(self)@, now@),
            wake == final(self)@.reader_may_go(),
            final(self).looks() == old(self).looks(),
            final(self).line() == old(self).line(),
            final(self).readings() == old(self).readings(),
    {
        self.inner.reader_may_go(now)
    }

    /// Reads up to `room` bytes at time `now`.
    fn read(&mut self, room: usize, now: Duration) -> (step: Step<Vec<u8>>)
        requires
            old(self)@.read_bytes + room <= u64::MAX,
        ensures
            (final(self)@, step@) == script::poll_read(old(self)@, room as nat, now@),
            final(self).looks() == old(self).looks(),
            final(self).line() == old(self).line(),
            final(self).readings() == old(self).readings(),
    {
        match self.inner.read(room, now) {
            Ok(Chunk::Data(data)) => {
                if data.len() > 0 {
                    Step::Ready { result: Ok(data), wake_reader: false }
                } else {
                    Step::Poll
                }
            },
            Ok(Chunk::Eof) => Step::Ready { result: Ok(Vec::new()), wake_reader: false },
            Ok(Chunk::Nothing) => Step::Poll,
            Err(error) => {
                if error.kind == ErrorKind::WouldBlock {
                    match self.inner.remaining_wait(now) {
                        Some(span) => Step::Sleep(span),
                        None => self.await_writer(),
                    }
                } else {
                    Step::Ready { result: Err(error), wake_reader: false }
                }
            },
        }
    }

    /// What comes of a read that waits for the writing side: it is objected to if the writing
    /// side is to be shut down.
    fn await_writer(&mut self) -> (step: Step<Vec<u8>>)
        ensures
            (final(self)@, step@) == if old(self)@.demands_shutdown() {
                script::object_to_read(old(self)@)
            } else {
                (old(self)@, StepView::AwaitWrite)
            },
            final(self).looks() == old(self).looks(),
            final(self).line() == old(self).line(),
            final(self).readings() == old(self).readings(),
    {
        if !self.inner.demands_shutdown() {
            return Step::AwaitWrite;
        }
        match self.inner.object_to_read() {
            Some(failure) => Step::Panic(failure),
            None => Step::Ready {
                result: Err(IoError::new(ErrorKind::InvalidData)),
                wake_reader: false,
            },
        }
    }

    /// Hands a look at the channel to the reading side.
    fn read_incoming(&mut self, incoming: Incoming) -> (step: Step<Vec<u8>>)
        ensures
            (final(self)@, step@) == script::read_incoming(old(self)@, incoming@),
            final(self).looks() == old(self).looks(),
            final(self).line() == old(self).line(),
            final(self).readings() == old(self).readings(),
    {
        match incoming {
            Incoming::Pending => Step::Pending,
            Incoming::Closed => Step::Ready { result: Ok(Vec::new()), wake_reader: false },
            Incoming::Action(a) => {
                self.inner.push(a);
                Step::Proceed
            },
        }
    }

    /// Takes a turn of the reading side at time `now`, to read up to `room` bytes.
    pub fn poll_read_at(&mut self, event: Event, room: usize, now: Duration) -> (step: Step<
        Vec<u8>,
    >)
        requires
            old(self)@.read_bytes + room <= u64::MAX,
        ensures
            (final(self)@, step@) == script::read_turn(old(self)@, event@, room as nat, now@),
            final(self).looks() == old(self).looks(),
            final(self).line() == old(self).line(),
            final(self).readings() == old(self).readings(),
    {
        match event {
            Event::Begin => self.read(room, now),
            Event::Opening(incoming) => self.read_incoming(incoming),
            Event::Incoming(incoming) => self.read_incoming(incoming),
        }
    }

    /// Looks at the channel through which actions are added to the script. If there is none for
    /// now, the task of `context` is woken when there is; once the channel has ended, there is
    /// none.
    pub fn poll_action(&mut self, context: &mut std::task::Context<'_>) -> (incoming: Incoming)
        ensures
            final(self)@ == old(self)@,
            final(self).looks() == old(self).looks().push(incoming@),
            final(self).line() == old(self).line(),
            final(self).readings() == old(self).readings(),
            incoming is Action ==> !old(self).looks().contains(IncomingView::Closed),
    {
        channel::next_action(&mut self.incoming, context)
    }

    /// Objects to an operation that the script has no place for: in the report, or else by a
    /// panic that `complaint` begins.
    fn object<T: View>(&mut self, error: MockOutcomeError, complaint: &str) -> (step: Step<T>)
        ensures
            (final(self)@, step@) == script::object::<T::V>(old(self)@, error, complaint@),
            final(self).looks() == old(self).looks(),
            final(self).line() == old(self).line(),
            final(self).readings() == old(self).readings(),
    {
        if self.inner.object(error) {
            let mut message = String::from(complaint);
            message.append(self.inner.pmsg().as_str());
            Step::Panic(Failure::Script { message })
        } else {
            Step::Ready {
                result: Err(IoError::new(ErrorKind::BrokenPipe)),
                wake_reader: false,
            }
        }
    }

    /// What comes of a write or a shutdown that would block.
    fn would_block<T: View>(&mut self, now: Duration) -> (step: Step<T>)
        ensures
            (final(self)@, step@) == script::would_block::<T::V>(old(self)@, now@),
            final(self).looks() == old(self).looks(),
            final(self).line() == old(self).line(),
            final(self).readings() == old(self).readings(),
    {
        match self.inner.remaining_wait(now) {
            Some(span) => Step::Sleep(span),
            None => self.object(MockOutcomeError::Other, "unexpected WouldBlock "),
        }
    }

    /// Writes `src` at time `now`.
    fn write(&mut self, src: &[u8], now: Duration) -> (step: Step<usize>)
        requires
            old(self)@.written_bytes + src.len() <= u64::MAX,
        ensures
            (final(self)@, step@) == script::poll_write(old(self)@, src@, now@),
            final(self).looks() == old(self).looks(),
            final(self).line() == old(self).line(),
            final(self).readings() == old(self).readings(),
    {
        match self.inner.write(src, now) {
            Ok(n) => {
                let wake_reader = self.maybe_wakeup_reader(now);
                if n > 0 {
                    Step::Ready { result: Ok(n), wake_reader }
                } else if self.inner.is_empty() || (self.inner.has_no_place_for_a_write()
                    && self.inner.checks_enabled() && src.len() > 0) {
                    Step::Poll
                } else {
                    Step::Pending
                }
            },
            Err(Refusal::Failure(failure)) => Step::Panic(failure),
            Err(Refusal::Io(error)) => {
                if error.kind == ErrorKind::WouldBlock {
                    self.would_block(now)
                } else {
                    let wake_reader = self.maybe_wakeup_reader(now);
                    Step::Ready { result: Err(error), wake_reader }
                }
            },
        }
    }

    /// Hands the look at the channel that opens a write to the writing side.
    fn write_opening(&mut self, incoming: Incoming) -> (step: Step<usize>)
        ensures
            (final(self)@, step@) == script::write_opening(old(self)@, incoming@),
            final(self).looks() == old(self).looks(),
            final(self).line() == old(self).line(),
            final(self).readings() == old(self).readings(),
    {
        match incoming {
            Incoming::Pending => Step::Proceed,
            Incoming::Closed => self.object(
                MockOutcomeError::UnexpectedWrite,
                "unexpected write ",
            ),
            Incoming::Action(a) => {
                self.inner.push(a);
                Step::Proceed
            },
        }
    }

    /// Hands a later look at the channel to the writing side.
    fn write_incoming(&mut self, incoming: Incoming) -> (step: Step<usize>)
        ensures
            (final(self)@, step@) == script::write_incoming(old(self)@, incoming@),
            final(self).looks() == old(self).looks(),
            final(self).line() == old(self).line(),
            final(self).readings() == old(self).readings(),
    {
        match incoming {
            Incoming::Pending => Step::Pending,
            Incoming::Closed => self.object(
                MockOutcomeError::UnexpectedWrite,
                "unexpected write ",
            ),
            Incoming::Action(a) => {
                self.inner.push(a);
                Step::Proceed
            },
        }
    }

    /// Takes a turn of the writing side at time `now`, to write `src`.
    pub fn poll_write_at(&mut self, event: Event, src: &[u8], now: Duration) -> (step: Step<usize>)
        requires
            old(self)@.written_bytes + src.len() <= u64::MAX,
        ensures
            (final(self)@, step@) == script::write_turn(old(self)@, event@, src@, now@),
            final(self).looks() == old(self).looks(),
            final(self).line() == old(self).line(),
            final(self).readings() == old(self).readings(),
    {
        match event {
            Event::Begin => {
                if self.inner.is_empty() {
                    Step::Open
                } else {
                    self.write(src, now)
                }
            },
            Event::Opening(incoming) => match self.write_opening(incoming) {
                Step::Proceed => self.write(src, now),
                step => step,
            },
            Event::Incoming(incoming) => self.write_incoming(incoming),
        }
    }

    /// Shuts the writing side down at time `now`.
    fn shutdown(&mut self, now: Duration) -> (step: Step<()>)
        ensures
            (final(self)@, step@) == script::poll_shutdown(old(self)@, now@),
            final(self).looks() == old(self).looks(),
            final(self).line() == old(self).line(),
            final(self).readings() == old(self).readings(),
    {
        if !self.inner.checks_shutdown() {
            return Step::Ready { result: Ok(()), wake_reader: false };
        }
        match self.inner.shutdown(now) {
            Ok(_) => {
                let wake_reader = self.maybe_wakeup_reader(now);
                Step::Ready { result: Ok(()), wake_reader }
            },
            Err(Refusal::Failure(failure)) => Step::Panic(failure),
            Err(Refusal::Io(error)) => {
                if error.kind == ErrorKind::WouldBlock {
                    self.would_block(now)
                } else {
                    let wake_reader = self.maybe_wakeup_reader(now);
                    Step::Ready { result: Err(error), wake_reader }
                }
            },
        }
    }

    /// Hands a look at the channel to a shutdown.
    fn shutdown_opening(&mut self, incoming: Incoming) -> (step: Step<()>)
        ensures
            (final(self)@, step@) == script::shutdown_opening(old(self)@, incoming@),
            final(self).looks() == old(self).looks(),
            final(self).line() == old(self).line(),
            final(self).readings() == old(self).readings(),
    {
        match incoming {
            Incoming::Pending => Step::Proceed,
            Incoming::Closed => Step::Ready { result: Ok(()), wake_reader: false },
            Incoming::Action(a) => {
                self.inner.push(a);
                Step::Proceed
            },
        }
    }

    /// Takes a turn of the writing side at time `now`, to shut it down.
    pub fn poll_shutdown_at(&mut self, event: Event, now: Duration) -> (step: Step<()>)
        ensures
            (final(self)@, step@) == script::shutdown_turn(old(self)@, event@, now@),
            final(self).looks() == old(self).looks(),
            final(self).line() == old(self).line(),
            final(self).readings() == old(self).readings(),
    {
        let incoming = match event {
            Event::Begin => {
                return if self.inner.checks_shutdown() && self.inner.is_empty() {
                    Step::Open
                } else {
                    self.shutdown(now)
                };
            },
            Event::Opening(incoming) => incoming,
            Event::Incoming(incoming) => incoming,
        };
        match self.shutdown_opening(incoming) {
            Step::Proceed => self.shutdown(now),
            step => step,
        }
    }

    /// Reads up to `room` bytes now. The answer is never to look at the channel: that is done
    /// here, and what comes through it is followed. If there is nothing for now, the task of
    /// `context` is woken when there is.
    pub fn poll_read(&mut self, context: &mut std::task::Context<'_>, room: usize) -> (step: Step<
        Vec<u8>,
    >)
        requires
            old(self)@.read_bytes + room <= u64::MAX,
        ensures
            !(step is Open) && !(step is Poll),
            final(self).line() == old(self).line(),
            exists|now: Duration, look: Incoming|
                #![trigger now@, look@]
                ({
                    let round = script::read_round(old(self)@, look@, room as nat, now@);
                    &&& final(self)@ == round.0
                    &&& step@ == round.1
                    &&& final(self).looks() == old(self).looks() + round.2
                    &&& final(self).readings() == old(self).readings().push(now@)
                    &&& old(self).readings().len() > 0 ==> old(self).readings().last() <= now@
                }),
    {
        let now = self.now();
        let ghost mut look = Incoming::Pending;
        proof {
            streams::poll_read_gives_the_script(self@, room as nat, now@);
        }
        let step = match self.poll_read_at(Event::Begin, room, now) {
            Step::Poll => {
                let incoming = self.poll_action(context);
                proof {
                    look = incoming;
                }
                self.poll_read_at(Event::Incoming(incoming), room, now)
            },
            step => step,
        };
        proof {
            let round = script::read_round(old(self)@, look@, room as nat, now@);
            assert(self.looks() =~= old(self).looks() + round.2);
        }
        step
    }

    /// Writes `src` now. The answer is never to look at the channel: that is done here, and what
    /// comes through it is followed. If there is nothing for now, the task of `context` is woken
    /// when there is.
    pub fn poll_write(&mut self, context: &mut std::task::Context<'_>, src: &[u8]) -> (step: Step<
        usize,
    >)
        requires
            old(self)@.written_bytes + src.len() <= u64::MAX,
        ensures
            !(step is Open) && !(step is Poll),
            final(self).line() == old(self).line(),
            exists|now: Duration, opening: Incoming, later: Incoming|
                #![trigger now@, opening@, later@]
                ({
                    let round = script::write_round(
                        old(self)@,
                        opening@,
                        later@,
                        src@,
                        now@,
                    );
                    &&& final(self)@ == round.0
                    &&& step@ == round.1
                    &&& final(self).looks() == old(self).looks() + round.2
                    &&& final(self).readings() == old(self).readings().push(now@)
                    &&& old(self).readings().len() > 0 ==> old(self).readings().last() <= now@
                }),
    {
        let now = self.now();
        let ghost mut opening = Incoming::Pending;
        let ghost mut later = Incoming::Pending;
        let first = match self.poll_write_at(Event::Begin, src, now) {
            Step::Open => {
                let incoming = self.poll_action(context);
                proof {
                    opening = incoming;
                }
                self.poll_write_at(Event::Opening(incoming), src, now)
            },
            step => step,
        };
        proof {
            streams::poll_write_takes_the_script(old(self)@, src@, now@);
            streams::poll_write_takes_the_script(
                script::write_opening(old(self)@, opening@).0,
                src@,
                now@,
            );
        }
        let step = match first {
            Step::Poll => {
                let incoming = self.poll_action(context);
                proof {
                    later = incoming;
                }
                self.poll_write_at(Event::Incoming(incoming), src, now)
            },
            step => step,
        };
        proof {
            let round = script::write_round(old(self)@, opening@, later@, src@, now@);
            assert(self.looks() =~= old(self).looks() + round.2);
        }
        step
    }

    /// Shuts the writing side down now. The answer is never to look at the channel: that is done
    /// here, and what comes through it is followed. If there is nothing for now, the task of
    /// `context` is woken when there is.
    pub fn poll_shutdown(&mut self, context: &mut std::task::Context<'_>) -> (step: Step<()>)
        ensures
            !(step is Open) && !(step is Poll),
            final(self).line() == old(self).line(),
            exists|now: Duration, look: Incoming|
                #![trigger now@, look@]
                ({
                    let round = script::shutdown_round(old(self)@, look@, now@);
                    &&& final(self)@ == round.0
                    &&& step@ == round.1
                    &&& final(self).looks() == old(self).looks() + round.2
                    &&& final(self).readings() == old(self).readings().push(now@)
                    &&& old(self).readings().len() > 0 ==> old(self).readings().last() <= now@
                }),
    {
        let now = self.now();
        let ghost mut look = Incoming::Pending;
        let step = match self.poll_shutdown_at(Event::Begin, now) {
            Step::Open => {
                let incoming = self.poll_action(context);
                proof {
                    look = incoming;
                }
                self.poll_shutdown_at(Event::Opening(incoming), now)
            },
            step => step,
        };
        proof {
            let round = script::shutdown_round(old(self)@, look@, now@);
            assert(self.looks() =~= old(self).looks() + round.2);
        }
        step
    }

    /// Ends the mock: makes the report that is still to be made, or objects to what is left of
    /// the script. `panicking` says that a panic is already under way.
    pub fn finish(&mut self, panicking: bool) -> (result: Result<(), Failure>)
        ensures
            final(self)@ == script::finish(old(self)@, panicking).0,
            failure::finish_view(result) == script::finish(old(self)@, panicking).1,
            final(self).looks() == old(self).looks(),
            final(self).line() == old(self).line(),
            final(self).readings() == old(self).readings(),
    {
        self.inner.finish(panicking)
    }
}

} // verus!
