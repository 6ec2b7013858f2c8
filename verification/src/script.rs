//! What a script means: the state of a mock and what each operation makes of it.

use crate::action::ActionView;
use crate::error::{ErrorKind, IoError};
use crate::outcome::{MockOutcome, MockOutcomeError};
use crate::text;
use vstd::prelude::*;

verus! {

/// The mathematical state of a mock.
#[verifier::ext_equal]
pub struct State {
    /// What is left of the script.
    pub actions: Seq<ActionView>,
    /// When the wait at the head of the script ends, once it has begun.
    pub waiting: Option<nat>,
    /// The name of the mock, empty if it has none.
    pub name: Seq<char>,
    /// Whether departures from the script are still objected to.
    pub checks_enabled: bool,
    /// The number of bytes read so far.
    pub read_bytes: nat,
    /// The number of bytes written so far.
    pub written_bytes: nat,
    /// Whether shutdowns are held to the script.
    pub shutdown_checking_enabled: bool,
    /// Whether departures from the script go into a report that is still to be made.
    pub armed: bool,
    /// The report, once it has been made.
    pub report: Option<MockOutcome>,
    /// The channel that the report goes through, if there is to be one or was one.
    pub reporter: Option<nat>,
}

/// A departure from the script that a mock without a report panics on.
#[verifier::ext_equal]
pub enum FailureView {
    /// Bytes were written that differ from the expected ones.
    Bytes { expected: Seq<u8>, actual: Seq<u8>, message: Seq<char> },
    /// A byte was written where a zero was expected.
    NonZero { byte: u8, message: Seq<char> },
    /// The operation, or the end of the mock, came too early or too late.
    Script { message: Seq<char> },
}

/// Why an operation was not carried out.
#[verifier::ext_equal]
pub enum RefusalView {
    /// The operation returns an error.
    Io(IoError),
    /// The mock panics.
    Failure(FailureView),
}

/// An error of a kind, with no cause.
pub open spec fn plain_error(kind: ErrorKind) -> IoError {
    IoError { kind, cause: None }
}

pub open spec fn min(a: nat, b: nat) -> nat {
    if a <= b {
        a
    } else {
        b
    }
}

/// Whether an action has nothing left to do. Waits and [`ActionView::StopChecking`] are never
/// spent: [`advance`] deals with them.
pub open spec fn is_spent(a: ActionView) -> bool {
    match a {
        ActionView::Read(data) => data.len() == 0,
        ActionView::Write(data) => data.len() == 0,
        ActionView::Wait(_) => false,
        ActionView::ReadError(error) => error is None,
        ActionView::WriteError(error) => error is None,
        ActionView::WriteShutdown(seen) => seen,
        ActionView::ReadZeroes(n) => n == 0,
        ActionView::WriteZeroes(n) => n == 0,
        ActionView::IgnoreWritten(n) => n == 0,
        ActionView::ReadEof(seen) => seen,
        ActionView::StopChecking => false,
    }
}

/// The state of a mock that has yet to follow its script. If there is a `reporter`, departures
/// go into a report, and the report goes there.
pub open spec fn start(
    actions: Seq<ActionView>,
    name: Seq<char>,
    shutdown_checking_enabled: bool,
    reporter: Option<nat>,
) -> State {
    State {
        actions,
        waiting: None,
        name,
        checks_enabled: true,
        read_bytes: 0,
        written_bytes: 0,
        shutdown_checking_enabled,
        armed: reporter is Some,
        report: None,
        reporter,
    }
}

impl State {
    /// The state with the first action gone.
    pub open spec fn popped(self) -> State {
        State { actions: self.actions.skip(1), ..self }
    }

    /// The state with one action replaced.
    pub open spec fn replaced(self, i: int, a: ActionView) -> State {
        State { actions: self.actions.update(i, a), ..self }
    }

    /// The state after a report: it is made once, and nothing is objected to from then on.
    pub open spec fn reported(self, outcome: Result<(), MockOutcomeError>) -> State {
        State {
            checks_enabled: false,
            armed: false,
            report: Some(
                MockOutcome {
                    outcome,
                    total_read_bytes: self.read_bytes as u64,
                    total_written_bytes: self.written_bytes as u64,
                },
            ),
            ..self
        }
    }

    /// The first action is a wait.
    pub open spec fn is_waiting(self) -> bool {
        self.actions.len() > 0 && self.actions[0] is Wait
    }
}

/// The state once everything at the head of the script that is over at time `now` has been
/// removed: spent actions, a wait whose end has come, and the end of checking, which takes
/// effect. A wait that has become the head begins; one that takes no time ends as it begins.
pub open spec fn advance(m: State, now: nat) -> State
    decreases m.actions.len(),
{
    if m.actions.len() == 0 {
        m
    } else {
        match m.actions[0] {
            ActionView::Wait(span) => match m.waiting {
                Some(until) => if now < until {
                    m
                } else {
                    advance(State { waiting: None, ..m }.popped(), now)
                },
                None => if span == 0 {
                    advance(m.popped(), now)
                } else {
                    State { waiting: Some(now + span), ..m }
                },
            },
            ActionView::StopChecking => advance(
                State { checks_enabled: false, ..m }.popped(),
                now,
            ),
            a => if is_spent(a) {
                advance(m.popped(), now)
            } else {
                m
            },
        }
    }
}

/// The span of the wait at the head of the script at time `now`.
pub open spec fn remaining_wait(m: State, now: nat) -> Option<nat> {
    let m1 = advance(m, now);
    if m1.is_waiting() {
        Some(m1.actions[0]->Wait_0)
    } else {
        None
    }
}

//////////////////////////////////////////////////////////////////////////////
// Reading
//////////////////////////////////////////////////////////////////////////////

/// What a read finds.
#[verifier::ext_equal]
pub enum ChunkView {
    /// The next bytes of the script.
    Data(Seq<u8>),
    /// The end of the file.
    Eof,
    /// A script that has come to its end.
    Nothing,
}

/// The action once `n` more bytes of it are done with.
pub open spec fn consumed(a: ActionView, n: nat) -> ActionView {
    match a {
        ActionView::Read(data) => ActionView::Read(data.skip(n as int)),
        ActionView::ReadZeroes(len) => ActionView::ReadZeroes((len - n) as nat),
        ActionView::Write(data) => ActionView::Write(data.skip(n as int)),
        ActionView::WriteZeroes(len) => ActionView::WriteZeroes((len - n) as nat),
        ActionView::IgnoreWritten(len) => ActionView::IgnoreWritten((len - n) as nat),
        _ => a,
    }
}

pub open spec fn zeroes(n: nat) -> Seq<u8> {
    Seq::new(n, |i: int| 0u8)
}

/// The bytes that an action has for the reader.
pub open spec fn readable(a: ActionView) -> Seq<u8> {
    match a {
        ActionView::Read(data) => data,
        ActionView::ReadZeroes(n) => zeroes(n),
        _ => Seq::empty(),
    }
}

/// A read into a buffer with room for `room` bytes, at time `now`.
pub open spec fn read(m: State, room: nat, now: nat) -> (State, Result<ChunkView, IoError>) {
    let m1 = advance(m, now);
    if m1.actions.len() == 0 {
        (m1, Ok(ChunkView::Nothing))
    } else {
        let head = m1.actions[0];
        match head {
            ActionView::Read(_) | ActionView::ReadZeroes(_) => {
                let n = min(room, readable(head).len());
                (
                    State { read_bytes: m1.read_bytes + n, ..m1 }.replaced(0, consumed(head, n)),
                    Ok(ChunkView::Data(readable(head).take(n as int))),
                )
            },
            ActionView::ReadEof(_) => (
                m1.replaced(0, ActionView::ReadEof(true)),
                Ok(ChunkView::Eof),
            ),
            ActionView::ReadError(Some(error)) => (
                m1.replaced(0, ActionView::ReadError(None)),
                Err(error),
            ),
            _ => (m1, Err(plain_error(ErrorKind::WouldBlock))),
        }
    }
}

//////////////////////////////////////////////////////////////////////////////
// Writing
//////////////////////////////////////////////////////////////////////////////

/// Whether an action takes written bytes.
pub open spec fn takes_bytes(a: ActionView) -> bool {
    a is Write || a is WriteZeroes || a is IgnoreWritten
}

/// The number of bytes that an action still takes.
pub open spec fn capacity(a: ActionView) -> nat {
    match a {
        ActionView::Write(data) => data.len(),
        ActionView::WriteZeroes(n) => n,
        ActionView::IgnoreWritten(n) => n,
        _ => 0,
    }
}

/// The byte that an action expects at position `k`; `None` if any byte will do.
pub open spec fn expected(a: ActionView, k: int) -> Option<u8> {
    match a {
        ActionView::Write(data) => Some(data[k]),
        ActionView::WriteZeroes(_) => Some(0u8),
        _ => None,
    }
}

/// Whether a byte is as expected.
pub open spec fn fits(want: Option<u8>, got: u8) -> bool {
    match want {
        Some(byte) => byte == got,
        None => true,
    }
}

/// The first position in `from..n` at which `src` departs from what an action expects.
pub open spec fn first_mismatch(a: ActionView, src: Seq<u8>, from: nat, n: nat) -> Option<nat>
    decreases n - from,
{
    if from >= n {
        None
    } else if !fits(expected(a, from as int), src[from as int]) {
        Some(from)
    } else {
        first_mismatch(a, src, from + 1, n)
    }
}

/// `r=<bytes read> w=<bytes written>`
pub open spec fn totals(read_bytes: nat, written_bytes: nat) -> Seq<char> {
    "r="@ + text::decimal(read_bytes) + " w="@ + text::decimal(written_bytes)
}

pub open spec fn remaining_text(n: nat) -> Seq<char> {
    " remaining actions: "@ + text::decimal(n)
}

/// What a mock panics with when written bytes depart from the script. `i` is the place of the
/// action in the script, `n` the number of bytes held against it, `k` the first that differs.
pub open spec fn mismatch_failure(m: State, i: int, src: Seq<u8>, n: nat, k: nat) -> FailureView {
    let left = (m.actions.len() - i) as nat;
    match m.actions[i] {
        ActionView::Write(data) => FailureView::Bytes {
            expected: data.take(n as int),
            actual: src.take(n as int),
            message: "name="@ + m.name + " "@ + totals(m.read_bytes, m.written_bytes)
                + remaining_text(left),
        },
        _ => FailureView::NonZero {
            byte: src[k as int],
            message: "byte_index="@ + text::decimal(k) + " "@ + totals(
                m.read_bytes,
                m.written_bytes + k + 1,
            ) + " name="@ + m.name + remaining_text(left),
        },
    }
}

/// What a mock panics with when a write comes where a shutdown was expected.
pub open spec fn write_instead_of_shutdown(m: State, i: int) -> FailureView {
    FailureView::Script {
        message: "unexpected write (a shutdown was expected) "@ + totals(
            m.read_bytes,
            m.written_bytes,
        ) + " name="@ + m.name + remaining_text((m.actions.len() - i) as nat),
    }
}

/// Hands the first `n` bytes of `src` to the action at place `i`, which takes bytes. `checking`
/// says whether departures are objected to: the first one is reported, and from then on nothing
/// is objected to; without a report it fails. The result also tells whether departures are
/// still objected to.
pub open spec fn give(m: State, i: int, src: Seq<u8>, n: nat, checking: bool) -> Result<
    (State, bool),
    FailureView,
> {
    let a = m.actions[i];
    let taken = |m1: State|
        State { written_bytes: m.written_bytes + n, ..m1 }.replaced(i, consumed(a, n));
    if !checking {
        Ok((taken(m), false))
    } else {
        match first_mismatch(a, src, 0, n) {
            None => Ok((taken(m), true)),
            Some(k) => if m.armed {
                let error = MockOutcomeError::WrittenByteMismatch {
                    expected: expected(a, k as int)->0,
                    actual: src[k as int],
                };
                let m1 = State { written_bytes: m.written_bytes + k, ..m }.reported(Err(error));
                Ok((taken(m1), false))
            } else {
                Err(mismatch_failure(m, i, src, n, k))
            },
        }
    }
}

/// Hands `src` to the actions from place `i` on, as far as they take it. `checking` says
/// whether departures are objected to. The result is the number of bytes taken.
pub open spec fn scan_write(m: State, i: nat, src: Seq<u8>, checking: bool) -> (
    State,
    Result<nat, RefusalView>,
)
    decreases m.actions.len() - i,
{
    if i >= m.actions.len() {
        (m, Ok(0))
    } else {
        let a = m.actions[i as int];
        if takes_bytes(a) {
            let n = min(src.len(), capacity(a));
            match give(m, i as int, src, n, checking) {
                Err(failure) => (m, Err(RefusalView::Failure(failure))),
                Ok((m1, still)) => {
                    if n == src.len() {
                        (m1, Ok(n))
                    } else {
                        let (m2, rest) = scan_write(m1, i + 1, src.skip(n as int), still);
                        match rest {
                            Ok(taken) => (m2, Ok(n + taken)),
                            Err(refusal) => (m2, Err(refusal)),
                        }
                    }
                },
            }
        } else {
            match a {
                ActionView::WriteShutdown(_) => {
                    if checking && !m.armed {
                        (m, Err(RefusalView::Failure(write_instead_of_shutdown(m, i as int))))
                    } else {
                        let m1 = if checking {
                            m.reported(Err(MockOutcomeError::WriteInsteadOfShutdown))
                        } else {
                            m
                        };
                        (
                            m1.replaced(i as int, ActionView::WriteShutdown(true)),
                            Err(RefusalView::Io(plain_error(ErrorKind::InvalidData))),
                        )
                    }
                },
                ActionView::StopChecking => scan_write(m, i + 1, src, false),
                ActionView::Wait(_) | ActionView::WriteError(_) => (m, Ok(0)),
                _ => scan_write(m, i + 1, src, checking),
            }
        }
    }
}

/// A write of `src` at time `now`.
pub open spec fn write(m: State, src: Seq<u8>, now: nat) -> (State, Result<nat, RefusalView>) {
    if m.actions.len() == 0 {
        (m, Err(RefusalView::Io(plain_error(ErrorKind::BrokenPipe))))
    } else {
        let m1 = advance(m, now);
        if m1.is_waiting() {
            (m1, Err(RefusalView::Io(plain_error(ErrorKind::WouldBlock))))
        } else if m1.actions.len() > 0 && m1.actions[0] is WriteError {
            (
                m1.replaced(0, ActionView::WriteError(None)),
                Err(RefusalView::Io(m1.actions[0]->WriteError_0->0)),
            )
        } else {
            scan_write(m1, 0, src, m1.checks_enabled)
        }
    }
}

//////////////////////////////////////////////////////////////////////////////
// Shutting down
//////////////////////////////////////////////////////////////////////////////

/// What a mock panics with when a shutdown comes before a write.
pub open spec fn shutdown_instead_of_write(m: State, i: int) -> FailureView {
    FailureView::Script {
        message: "Unexpected shutdown (there are more pending write actions) name="@ + m.name
            + " "@ + totals(m.read_bytes, m.written_bytes) + remaining_text(
            (m.actions.len() - i) as nat,
        ),
    }
}

/// Looks for the shutdown from place `i` of the script on. `checking` says whether departures
/// are objected to.
pub open spec fn scan_shutdown(m: State, i: nat, checking: bool) -> (
    State,
    Result<(), RefusalView>,
)
    decreases m.actions.len() - i,
{
    if i >= m.actions.len() {
        (m, Ok(()))
    } else {
        let a = m.actions[i as int];
        if takes_bytes(a) || a is WriteError {
            if !checking {
                scan_shutdown(m, i + 1, checking)
            } else if m.armed {
                (
                    m.reported(Err(MockOutcomeError::ShutdownInsteadOfWrite)),
                    Err(RefusalView::Io(plain_error(ErrorKind::InvalidData))),
                )
            } else {
                (m, Err(RefusalView::Failure(shutdown_instead_of_write(m, i as int))))
            }
        } else {
            match a {
                ActionView::WriteShutdown(_) => (
                    m.replaced(i as int, ActionView::WriteShutdown(true)),
                    Ok(()),
                ),
                ActionView::StopChecking => scan_shutdown(m, i + 1, false),
                ActionView::Wait(_) => (m, Ok(())),
                _ => scan_shutdown(m, i + 1, checking),
            }
        }
    }
}

/// A shutdown of the writing side at time `now`.
pub open spec fn shutdown(m: State, now: nat) -> (State, Result<(), RefusalView>) {
    if m.actions.len() == 0 {
        (m, Ok(()))
    } else {
        let m1 = advance(m, now);
        if m1.is_waiting() {
            (m1, Err(RefusalView::Io(plain_error(ErrorKind::WouldBlock))))
        } else {
            scan_shutdown(m1, 0, m1.checks_enabled)
        }
    }
}

//////////////////////////////////////////////////////////////////////////////
// The end
//////////////////////////////////////////////////////////////////////////////

/// What is wrong if the mock ends with this action still in its script.
pub open spec fn left_over(a: ActionView) -> Option<MockOutcomeError> {
    match a {
        ActionView::Read(_) | ActionView::ReadZeroes(_) | ActionView::ReadEof(_) => {
            if is_spent(a) {
                None
            } else {
                Some(MockOutcomeError::RemainingUnreadData)
            }
        },
        ActionView::Write(_) | ActionView::WriteZeroes(_) | ActionView::IgnoreWritten(_) => {
            if is_spent(a) {
                None
            } else {
                Some(MockOutcomeError::RemainingUnwrittenData)
            }
        },
        _ => None,
    }
}

/// What is wrong with the last action that should not be left over.
pub open spec fn last_left_over(actions: Seq<ActionView>) -> Option<MockOutcomeError>
    decreases actions.len(),
{
    if actions.len() == 0 {
        None
    } else if left_over(actions.last()) is Some {
        left_over(actions.last())
    } else {
        last_left_over(actions.drop_last())
    }
}

/// The place, from `i` on, of the first action that should not be left over.
pub open spec fn first_left_over(actions: Seq<ActionView>, i: nat) -> Option<nat>
    decreases actions.len() - i,
{
    if i >= actions.len() {
        None
    } else if left_over(actions[i as int]) is Some {
        Some(i)
    } else {
        first_left_over(actions, i + 1)
    }
}

/// The state of the mock, for a message.
pub open spec fn summary(m: State) -> Seq<char> {
    let opening = if m.name.len() == 0 {
        "("@
    } else {
        "(name "@ + m.name + ", "@
    };
    opening + text::decimal(m.actions.len()) + " actions remain, "@ + text::decimal(m.read_bytes)
        + " bytes was read, "@ + text::decimal(m.written_bytes) + " bytes was written)"@
}

/// What a mock panics with when it ends with this action still in its script.
pub open spec fn left_over_failure(m: State, a: ActionView) -> FailureView {
    let complaint = match a {
        ActionView::Read(_) | ActionView::ReadZeroes(_) => "There is still data left to read. "@,
        ActionView::ReadEof(_) => "There is still a read EOF event that was not observed "@,
        ActionView::Write(_) | ActionView::WriteZeroes(_) => {
            "There is still data left to write. "@
        },
        _ => {
            "There is still data left to write (even though content is to be ignored). "@
        },
    };
    FailureView::Script { message: complaint + summary(m) }
}

/// Whether the end of checking has been reached: nothing stands before it that is not spent.
pub open spec fn checking_is_over(actions: Seq<ActionView>) -> bool
    decreases actions.len(),
{
    &&& actions.len() > 0
    &&& actions[0] is StopChecking || (is_spent(actions[0]) && checking_is_over(actions.skip(1)))
}

/// The end of a mock. `panicking` says that a panic is already under way.
pub open spec fn finish(m: State, panicking: bool) -> (State, Result<(), FailureView>) {
    let checks = m.checks_enabled && !checking_is_over(m.actions);
    if m.armed {
        let outcome = if checks && last_left_over(m.actions) is Some {
            Err(last_left_over(m.actions)->0)
        } else {
            Ok(())
        };
        (m.reported(outcome), Ok(()))
    } else if panicking || !checks {
        (m, Ok(()))
    } else {
        match first_left_over(m.actions, 0) {
            Some(i) => (m, Err(left_over_failure(m, m.actions[i as int]))),
            None => (m, Ok(())),
        }
    }
}

/// A mock, for debugging.
pub open spec fn debug_text(m: State) -> Seq<char> {
    if m.name.len() == 0 {
        "Inner {...}"@
    } else {
        "Inner {name="@ + m.name + ", ...}"@
    }
}

//////////////////////////////////////////////////////////////////////////////
// Polling
//////////////////////////////////////////////////////////////////////////////

/// What comes of a look at the channel through which actions are added to the script.
#[verifier::ext_equal]
pub enum IncomingView {
    /// There is no action for now.
    Pending,
    /// There will be no more actions.
    Closed,
    /// The next action.
    Action(ActionView),
}

/// What whoever polls a mock is to do next.
#[verifier::ext_equal]
pub enum StepView<V> {
    /// Return the result, and first wake the reader that waits for a write if `wake_reader`.
    Ready { result: Result<V, IoError>, wake_reader: bool },
    /// Sleep for a span, and poll the mock again.
    Sleep(nat),
    /// Wait for a write that lets the script go on.
    AwaitWrite,
    /// Wait.
    Pending,
    /// Look at the channel, and hand over what came of it as an opening.
    Open,
    /// Look at the channel, and hand over what came of it.
    Poll,
    /// Begin again.
    Proceed,
    /// Panic.
    Panic(FailureView),
}

/// What whoever polls a mock tells it.
#[verifier::ext_equal]
pub enum EventView {
    /// An operation begins, or begins again.
    Begin,
    /// What came of the look at the channel that opens the operation.
    Opening(IncomingView),
    /// What came of a later look at the channel.
    Incoming(IncomingView),
}

impl State {
    /// The state with an action added to the script.
    pub open spec fn pushed(self, a: ActionView) -> State {
        State { actions: self.actions.push(a), ..self }
    }

    /// Whether a reader can go on, or will find that nothing more comes.
    pub open spec fn reader_may_go(self) -> bool {
        ||| self.actions.len() == 0
        ||| self.actions[0] is Read
        ||| self.actions[0] is ReadZeroes
        ||| self.actions[0] is ReadEof
        ||| self.actions[0] is ReadError
    }

    /// Whether a shutdown comes next, and anything else is objected to.
    pub open spec fn demands_shutdown(self) -> bool {
        &&& self.actions.len() > 0
        &&& self.actions[0] is WriteShutdown
        &&& self.shutdown_checking_enabled
        &&& self.checks_enabled
    }

    /// Whether nothing in the script can take a write, now or later.
    pub open spec fn has_no_place_for_a_write(self) -> bool {
        forall|i: int| 0 <= i < self.actions.len() ==> !is_for_writer(#[trigger] self.actions[i])
    }
}

/// Whether a write may still find something at an action or behind it: bytes to be written, an
/// error, a shutdown, a wait, or the end of checking.
pub open spec fn is_for_writer(a: ActionView) -> bool {
    match a {
        ActionView::Write(_) | ActionView::WriteZeroes(_) | ActionView::IgnoreWritten(_) => {
            !is_spent(a)
        },
        ActionView::Read(_)
        | ActionView::ReadZeroes(_)
        | ActionView::ReadEof(_)
        | ActionView::ReadError(_) => false,
        _ => true,
    }
}

/// What a mock panics with when a read comes where a shutdown was expected.
pub open spec fn read_instead_of_shutdown(m: State) -> FailureView {
    FailureView::Script {
        message: "unexpected read (a shutdown was expected) "@ + totals(
            m.read_bytes,
            m.written_bytes,
        ) + " name="@ + m.name + remaining_text(m.actions.len()),
    }
}

/// What comes of a read where a shutdown was expected: it fails and is reported, and the script
/// goes on behind the shutdown; without a report it is a panic.
pub open spec fn object_to_read(m: State) -> (State, StepView<Seq<u8>>) {
    if m.armed {
        (
            m.reported(Err(MockOutcomeError::Other)).replaced(0, ActionView::WriteShutdown(true)),
            ready(Err(plain_error(ErrorKind::InvalidData)), false),
        )
    } else {
        (m, StepView::Panic(read_instead_of_shutdown(m)))
    }
}

pub open spec fn ready<V>(result: Result<V, IoError>, wake_reader: bool) -> StepView<V> {
    StepView::Ready { result, wake_reader }
}

/// A poll of the reading side, with room for `room` bytes, at time `now`.
pub open spec fn poll_read(m: State, room: nat, now: nat) -> (State, StepView<Seq<u8>>) {
    let (m1, result) = read(m, room, now);
    match result {
        Ok(ChunkView::Data(data)) => {
            if data.len() > 0 {
                (m1, ready(Ok(data), false))
            } else {
                (m1, StepView::Poll)
            }
        },
        Ok(ChunkView::Eof) => (m1, ready(Ok(Seq::empty()), false)),
        Ok(ChunkView::Nothing) => (m1, StepView::Poll),
        Err(error) => {
            if error.kind is WouldBlock {
                let m2 = advance(m1, now);
                match remaining_wait(m1, now) {
                    Some(span) => (m2, StepView::Sleep(span)),
                    None => if m2.demands_shutdown() {
                        object_to_read(m2)
                    } else {
                        (m2, StepView::AwaitWrite)
                    },
                }
            } else {
                (m1, ready(Err(error), false))
            }
        },
    }
}

/// What a reader makes of a look at the channel: the end of the channel is the end of the file.
pub open spec fn read_incoming(m: State, incoming: IncomingView) -> (State, StepView<Seq<u8>>) {
    match incoming {
        IncomingView::Pending => (m, StepView::Pending),
        IncomingView::Closed => (m, ready(Ok(Seq::empty()), false)),
        IncomingView::Action(a) => (m.pushed(a), StepView::Proceed),
    }
}

/// What comes of an operation that the script has no place for.
pub open spec fn object<V>(m: State, error: MockOutcomeError, complaint: Seq<char>) -> (
    State,
    StepView<V>,
) {
    if m.checks_enabled && !m.armed {
        (m, StepView::Panic(FailureView::Script { message: complaint + summary(m) }))
    } else {
        (
            if m.checks_enabled {
                m.reported(Err(error))
            } else {
                m
            },
            ready(Err(plain_error(ErrorKind::BrokenPipe)), false),
        )
    }
}

/// What comes of a write when there is nothing in the script, nor will there be.
pub open spec fn unexpected_write(m: State) -> (State, StepView<usize>) {
    object(m, MockOutcomeError::UnexpectedWrite, "unexpected write "@)
}

/// What comes of a write or a shutdown that would block.
pub open spec fn would_block<V>(m: State, now: nat) -> (State, StepView<V>) {
    match remaining_wait(m, now) {
        Some(span) => (advance(m, now), StepView::Sleep(span)),
        None => object(advance(m, now), MockOutcomeError::Other, "unexpected WouldBlock "@),
    }
}

/// What a writer that finds the script empty makes of a look at the channel.
pub open spec fn write_opening(m: State, incoming: IncomingView) -> (State, StepView<usize>) {
    match incoming {
        IncomingView::Pending => (m, StepView::Proceed),
        IncomingView::Closed => unexpected_write(m),
        IncomingView::Action(a) => (m.pushed(a), StepView::Proceed),
    }
}

/// A poll of the writing side, to write `src`, at time `now`. At the end of the script, what comes
/// of it depends on the channel; so it does where data is written that nothing in the script can
/// take, while departures are objected to.
pub open spec fn poll_write(m: State, src: Seq<u8>, now: nat) -> (State, StepView<usize>) {
    let (m1, result) = write(m, src, now);
    let m2 = advance(m1, now);
    match result {
        Ok(n) => {
            if n > 0 {
                (m2, ready(Ok(n as usize), m2.reader_may_go()))
            } else if m2.actions.len() == 0 || (m2.has_no_place_for_a_write() && m2.checks_enabled
                && src.len() > 0) {
                (m2, StepView::Poll)
            } else {
                (m2, StepView::Pending)
            }
        },
        Err(RefusalView::Failure(failure)) => (m1, StepView::Panic(failure)),
        Err(RefusalView::Io(error)) => {
            if error.kind is WouldBlock {
                would_block(m1, now)
            } else {
                (m2, ready(Err(error), m2.reader_may_go()))
            }
        },
    }
}

/// What a writer that nothing in the script can serve makes of a look at the channel.
pub open spec fn write_incoming(m: State, incoming: IncomingView) -> (State, StepView<usize>) {
    match incoming {
        IncomingView::Pending => (m, StepView::Pending),
        IncomingView::Closed => unexpected_write(m),
        IncomingView::Action(a) => (m.pushed(a), StepView::Proceed),
    }
}

/// What a shutdown that finds the script empty makes of a look at the channel: at the end of
/// the script it is allowed.
pub open spec fn shutdown_opening(m: State, incoming: IncomingView) -> (State, StepView<()>) {
    match incoming {
        IncomingView::Pending => (m, StepView::Proceed),
        IncomingView::Closed => (m, ready(Ok(()), false)),
        IncomingView::Action(a) => (m.pushed(a), StepView::Proceed),
    }
}

/// A poll of the writing side, to shut it down, at time `now`.
pub open spec fn poll_shutdown(m: State, now: nat) -> (State, StepView<()>) {
    if !m.shutdown_checking_enabled {
        (m, ready(Ok(()), false))
    } else {
        let (m1, result) = shutdown(m, now);
        let m2 = advance(m1, now);
        match result {
            Ok(_) => (m2, ready(Ok(()), m2.reader_may_go())),
            Err(RefusalView::Failure(failure)) => (m1, StepView::Panic(failure)),
            Err(RefusalView::Io(error)) => {
                if error.kind is WouldBlock {
                    would_block(m1, now)
                } else {
                    (m2, ready(Err(error), m2.reader_may_go()))
                }
            },
        }
    }
}

/// What a reader with room for `room` bytes makes of an event, at time `now`.
pub open spec fn read_turn(m: State, event: EventView, room: nat, now: nat) -> (
    State,
    StepView<Seq<u8>>,
) {
    match event {
        EventView::Begin => poll_read(m, room, now),
        EventView::Opening(incoming) | EventView::Incoming(incoming) => read_incoming(m, incoming),
    }
}

/// What a writer of `src` makes of an event, at time `now`. With an empty script it begins with a
/// look at the channel; whatever comes of it, unless the channel has ended, it writes.
pub open spec fn write_turn(m: State, event: EventView, src: Seq<u8>, now: nat) -> (
    State,
    StepView<usize>,
) {
    match event {
        EventView::Begin => if m.actions.len() == 0 {
            (m, StepView::Open)
        } else {
            poll_write(m, src, now)
        },
        EventView::Opening(incoming) => {
            let (m1, step) = write_opening(m, incoming);
            if step is Proceed {
                poll_write(m1, src, now)
            } else {
                (m1, step)
            }
        },
        EventView::Incoming(incoming) => write_incoming(m, incoming),
    }
}

/// What a shutdown makes of an event, at time `now`. With an empty script it begins with a look at
/// the channel, if shutdowns are held to the script.
pub open spec fn shutdown_turn(m: State, event: EventView, now: nat) -> (State, StepView<()>) {
    match event {
        EventView::Begin => if m.shutdown_checking_enabled && m.actions.len() == 0 {
            (m, StepView::Open)
        } else {
            poll_shutdown(m, now)
        },
        EventView::Opening(incoming) | EventView::Incoming(incoming) => {
            let (m1, step) = shutdown_opening(m, incoming);
            if step is Proceed {
                poll_shutdown(m1, now)
            } else {
                (m1, step)
            }
        },
    }
}

//////////////////////////////////////////////////////////////////////////////
// Rounds
//////////////////////////////////////////////////////////////////////////////

/// A look at the channel, if it is made.
pub open spec fn look_if(made: bool, incoming: IncomingView) -> Seq<IncomingView> {
    if made {
        seq![incoming]
    } else {
        Seq::empty()
    }
}

/// A read that begins, with the look at the channel that it asks for, which is to bring `look`.
/// The last part of the result are the looks that were made.
pub open spec fn read_round(m: State, look: IncomingView, room: nat, now: nat) -> (
    State,
    StepView<Seq<u8>>,
    Seq<IncomingView>,
) {
    let (m1, step) = read_turn(m, EventView::Begin, room, now);
    if step is Poll {
        let (m2, answer) = read_turn(m1, EventView::Incoming(look), room, now);
        (m2, answer, seq![look])
    } else {
        (m1, step, Seq::empty())
    }
}

/// A write that begins, with the looks at the channel that it asks for, which are to bring
/// `opening` and `later`. The last part of the result are the looks that were made.
pub open spec fn write_round(
    m: State,
    opening: IncomingView,
    later: IncomingView,
    src: Seq<u8>,
    now: nat,
) -> (State, StepView<usize>, Seq<IncomingView>) {
    let (m1, first) = write_turn(m, EventView::Begin, src, now);
    let (m2, second) = if first is Open {
        write_turn(m1, EventView::Opening(opening), src, now)
    } else {
        (m1, first)
    };
    let (m3, third) = if second is Poll {
        write_turn(m2, EventView::Incoming(later), src, now)
    } else {
        (m2, second)
    };
    (m3, third, look_if(first is Open, opening) + look_if(second is Poll, later))
}

/// A shutdown that begins, with the look at the channel that it asks for, which is to bring
/// `look`. The last part of the result are the looks that were made.
pub open spec fn shutdown_round(m: State, look: IncomingView, now: nat) -> (
    State,
    StepView<()>,
    Seq<IncomingView>,
) {
    let (m1, step) = shutdown_turn(m, EventView::Begin, now);
    if step is Open {
        let (m2, answer) = shutdown_turn(m1, EventView::Opening(look), now);
        (m2, answer, seq![look])
    } else {
        (m1, step, Seq::empty())
    }
}

} // verus!
