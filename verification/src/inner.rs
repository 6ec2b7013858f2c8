//! A script being followed.

use crate::action::{self, Action};
use crate::channel::{self, Receipt};
use crate::duration::Duration;
use crate::error::{ErrorKind, IoError};
use crate::failure::{self, Failure, Refusal};
use crate::laws::advancing;
use crate::outcome::{MockOutcome, MockOutcomeError};
use crate::script::{self, ChunkView, State};
use crate::text;
use std::collections::VecDeque;
use tokio::sync::oneshot;
use vstd::prelude::*;
use vstd::string::*;

verus! {

/// What a read finds.
#[derive(Debug)]
pub enum Chunk {
    /// The next bytes of the script.
    Data(Vec<u8>),
    /// The end of the file.
    Eof,
    /// A script that has come to its end.
    Nothing,
}

impl View for Chunk {
    type V = ChunkView;

    open spec fn view(&self) -> ChunkView {
        match self {
            Chunk::Data(data) => ChunkView::Data(data@),
            Chunk::Eof => ChunkView::Eof,
            Chunk::Nothing => ChunkView::Nothing,
        }
    }
}

/// The state of a mock.
pub struct Inner {
    actions: VecDeque<Action>,
    waiting: Option<u128>,
    name: String,
    checks_enabled: bool,
    read_bytes: u64,
    written_bytes: u64,
    shutdown_checking_enabled: bool,
    panicless_tx: Option<oneshot::Sender<MockOutcome>>,
    receipt: Option<Receipt>,
}

impl View for Inner {
    type V = State;

    closed spec fn view(&self) -> State {
        State {
            actions: action::views(self.actions@),
            waiting: match self.waiting {
                Some(until) => Some(until as nat),
                None => None,
            },
            name: self.name@,
            checks_enabled: self.checks_enabled,
            read_bytes: self.read_bytes as nat,
            written_bytes: self.written_bytes as nat,
            shutdown_checking_enabled: self.shutdown_checking_enabled,
            armed: self.panicless_tx is Some,
            report: match self.receipt {
                Some(receipt) => Some(receipt.report()),
                None => None,
            },
            reporter: match self.panicless_tx {
                Some(sender) => Some(channel::reporter_line(sender)),
                None => match self.receipt {
                    Some(receipt) => Some(receipt.line()),
                    None => None,
                },
            },
        }
    }
}

/// Whether an action has nothing left to do.
fn is_spent(a: &Action) -> (spent: bool)
    ensures
        spent == script::is_spent(a@),
{
    match a {
        Action::Read(data) => data.len() == 0,
        Action::Write(data) => data.len() == 0,
        Action::Wait(_) => false,
        Action::ReadError(error) => error.is_none(),
        Action::WriteError(error) => error.is_none(),
        Action::WriteShutdown(seen) => *seen,
        Action::ReadZeroes(n) => *n == 0,
        Action::WriteZeroes(n) => *n == 0,
        Action::IgnoreWritten(n) => *n == 0,
        Action::ReadEof(seen) => *seen,
        Action::StopChecking => false,
    }
}

/// Whether a write may still find something at an action or behind it.
fn is_for_writer(a: &Action) -> (may: bool)
    ensures
        may == script::is_for_writer(a@),
{
    match a {
        Action::Write(_) | Action::WriteZeroes(_) | Action::IgnoreWritten(_) => !is_spent(a),
        Action::Read(_) | Action::ReadZeroes(_) | Action::ReadEof(_) | Action::ReadError(_) => {
            false
        },
        _ => true,
    }
}

/// The action once `n` more bytes of it are done with.
fn consumed(a: Action, n: usize) -> (rest: Action)
    requires
        n <= script::capacity(a@) || n <= script::readable(a@).len(),
    ensures
        rest@ == script::consumed(a@, n as nat),
{
    match a {
        Action::Read(mut data) => Action::Read(data.split_off(n)),
        Action::Write(mut data) => Action::Write(data.split_off(n)),
        Action::ReadZeroes(len) => Action::ReadZeroes(len - n),
        Action::WriteZeroes(len) => Action::WriteZeroes(len - n),
        Action::IgnoreWritten(len) => Action::IgnoreWritten(len - n),
        other => other,
    }
}

/// Whether an action takes written bytes, and how many.
fn capacity(a: &Action) -> (room: Option<usize>)
    ensures
        room is Some == script::takes_bytes(a@),
        room matches Some(n) ==> n == script::capacity(a@),
{
    match a {
        Action::Write(data) => Some(data.len()),
        Action::WriteZeroes(n) => Some(*n),
        Action::IgnoreWritten(n) => Some(*n),
        _ => None,
    }
}

/// The byte that an action expects at position `k`; `None` if any byte will do.
fn expected(a: &Action, k: usize) -> (want: Option<u8>)
    requires
        k < script::capacity(a@),
    ensures
        want == script::expected(a@, k as int),
{
    match a {
        Action::Write(data) => Some(data[k]),
        Action::WriteZeroes(_) => Some(0),
        _ => None,
    }
}

/// The first of the first `n` positions at which `src` departs from what an action expects.
fn first_mismatch(a: &Action, src: &[u8], n: usize) -> (bad: Option<usize>)
    requires
        n <= src.len(),
        n <= script::capacity(a@),
    ensures
        match bad {
            Some(k) => script::first_mismatch(a@, src@, 0, n as nat) == Some(k as nat) && k < n
                && script::expected(a@, k as int) is Some,
            None => script::first_mismatch(a@, src@, 0, n as nat) is None,
        },
{
    let mut k: usize = 0;
    while k < n
        invariant
            k <= n,
            n <= src.len(),
            n <= script::capacity(a@),
            script::first_mismatch(a@, src@, 0, n as nat) == script::first_mismatch(
                a@,
                src@,
                k as nat,
                n as nat,
            ),
        decreases n - k,
    {
        match expected(a, k) {
            Some(byte) => {
                if byte != src[k] {
                    return Some(k);
                }
            },
            None => {},
        }
        k = k + 1;
    }
    None
}

/// What is wrong if the mock ends with this action still in its script.
fn left_over(a: &Action) -> (error: Option<MockOutcomeError>)
    ensures
        error == script::left_over(a@),
{
    if is_spent(a) {
        return None;
    }
    match a {
        Action::Read(_) | Action::ReadZeroes(_) | Action::ReadEof(_) => {
            Some(MockOutcomeError::RemainingUnreadData)
        },
        Action::Write(_) | Action::WriteZeroes(_) | Action::IgnoreWritten(_) => {
            Some(MockOutcomeError::RemainingUnwrittenData)
        },
        _ => None,
    }
}

/// `n` zero bytes.
fn zeroes(n: usize) -> (data: Vec<u8>)
    ensures
        data@ == script::zeroes(n as nat),
{
    let data = vec![0u8; n];
    assert(data@ =~= script::zeroes(n as nat));
    data
}

/// Appends `r=<bytes read> w=<bytes written>`.
fn append_totals(message: &mut String, read_bytes: u64, written_bytes: u64)
    ensures
        final(message)@ == old(message)@ + script::totals(
            read_bytes as nat,
            written_bytes as nat,
        ),
{
    message.append("r=");
    text::append_decimal(message, read_bytes);
    message.append(" w=");
    text::append_decimal(message, written_bytes);
    assert(message@ =~= old(message)@ + script::totals(read_bytes as nat, written_bytes as nat));
}

/// Appends the number of actions that remain.
fn append_remaining(message: &mut String, n: usize)
    ensures
        final(message)@ == old(message)@ + script::remaining_text(n as nat),
{
    message.append(" remaining actions: ");
    text::append_decimal(message, n as u64);
    assert(message@ =~= old(message)@ + script::remaining_text(n as nat));
}

impl Inner {
    /// Starts to follow a script. Departures from it go to `panicless_tx`, where there is one.
    pub fn new(
        actions: VecDeque<Action>,
        name: String,
        shutdown_checking_enabled: bool,
        panicless_tx: Option<oneshot::Sender<MockOutcome>>,
    ) -> (inner: Inner)
        ensures
            inner@ == script::start(
                action::views(actions@),
                name@,
                shutdown_checking_enabled,
                match panicless_tx {
                    Some(sender) => Some(channel::reporter_line(sender)),
                    None => None,
                },
            ),
    {
        Inner {
            actions,
            waiting: None,
            name,
            checks_enabled: true,
            read_bytes: 0,
            written_bytes: 0,
            shutdown_checking_enabled,
            panicless_tx,
            receipt: None,
        }
    }

    /// Replaces an action.
    fn set(&mut self, i: usize, a: Action)
        requires
            i < old(self)@.actions.len(),
        ensures
            final(self)@ == old(self)@.replaced(i as int, a@),
    {
        let _ = self.actions.remove(i);
        self.actions.insert(i, a);
        assert(self@ =~= old(self)@.replaced(i as int, a@));
    }

    /// Notes that `n` more bytes of an action are done with.
    fn consume(&mut self, i: usize, n: usize)
        requires
            i < old(self)@.actions.len(),
            n <= script::capacity(old(self)@.actions[i as int]) || n <= script::readable(
                old(self)@.actions[i as int],
            ).len(),
        ensures
            final(self)@ == old(self)@.replaced(
                i as int,
                script::consumed(old(self)@.actions[i as int], n as nat),
            ),
    {
        match self.actions.remove(i) {
            Some(a) => {
                self.actions.insert(i, consumed(a, n));
            },
            None => {},
        }
        assert(self@ =~= old(self)@.replaced(
            i as int,
            script::consumed(old(self)@.actions[i as int], n as nat),
        ));
    }

    /// Makes the report that is still to be made.
    fn report(&mut self, outcome: Result<(), MockOutcomeError>)
        requires
            old(self)@.armed,
        ensures
            final(self)@ == old(self)@.reported(outcome),
    {
        let report = MockOutcome {
            outcome,
            total_read_bytes: self.read_bytes,
            total_written_bytes: self.written_bytes,
        };
        match self.panicless_tx.take() {
            Some(sender) => {
                self.receipt = Some(channel::send_report(sender, report));
            },
            None => {},
        }
        self.checks_enabled = false;
    }

    /// Drops the first action.
    fn pop(&mut self)
        requires
            old(self)@.actions.len() > 0,
        ensures
            final(self)@ == old(self)@.popped(),
    {
        let _ = self.actions.pop_front();
        assert(self@ =~= old(self)@.popped());
    }

    /// Moves on to the first action that is not over at time `now`, which a wait that has
    /// become the first action takes as its beginning. Tells whether there is one.
    pub fn action(&mut self, now: Duration) -> (found: bool)
        ensures
            final(self)@ == script::advance(old(self)@, now@),
            found == (final(self)@.actions.len() > 0),
    {
        loop
            invariant_except_break
                script::advance(self@, now@) == script::advance(old(self)@, now@),
            ensures
                self@ == script::advance(old(self)@, now@),
                self@.actions.len() > 0,
            decreases self@.actions.len(),
        {
            if self.actions.len() == 0 {
                return false;
            }
            match &self.actions[0] {
                Action::Wait(span) => {
                    let span = *span;
                    match self.waiting {
                        Some(until) => {
                            if now.as_nanos() < until {
                                break;
                            }
                            self.waiting = None;
                        },
                        None => {
                            if span.as_nanos() > 0 {
                                self.waiting = Some(now.as_nanos() + span.as_nanos());
                                break;
                            }
                        },
                    }
                },
                Action::StopChecking => {
                    self.checks_enabled = false;
                },
                other => {
                    if !is_spent(other) {
                        break;
                    }
                },
            }
            self.pop();
        }
        true
    }

    /// Reads into a buffer with room for `room` bytes, at time `now`.
    #[verifier::spinoff_prover]
    #[verifier::rlimit(40)]
    pub fn read(&mut self, room: usize, now: Duration) -> (result: Result<Chunk, IoError>)
        requires
            old(self)@.read_bytes + room <= u64::MAX,
        ensures
            final(self)@ == script::read(old(self)@, room as nat, now@).0,
            match result {
                Ok(chunk) => script::read(old(self)@, room as nat, now@).1 == Ok::<
                    ChunkView,
                    IoError,
                >(chunk@),
                Err(error) => script::read(old(self)@, room as nat, now@).1 == Err::<
                    ChunkView,
                    IoError,
                >(error),
            },
    {
        if !self.action(now) {
            return Ok(Chunk::Nothing);
        }
        let ghost m1 = self@;
        proof {
            advancing::advance_keeps(old(self)@, now@);
        }
        match &self.actions[0] {
            Action::ReadZeroes(len) => {
                let n: usize = if room <= *len {
                    room
                } else {
                    *len
                };
                self.consume(0, n);
                self.read_bytes = self.read_bytes + n as u64;
                assert(script::zeroes(n as nat) =~= script::readable(m1.actions[0]).take(n as int));
                Ok(Chunk::Data(zeroes(n)))
            },
            Action::ReadEof(_) => {
                self.set(0, Action::ReadEof(true));
                Ok(Chunk::Eof)
            },
            Action::Read(data) => {
                let n: usize = if room <= data.len() {
                    room
                } else {
                    data.len()
                };
                let chunk = vstd::slice::slice_to_vec(
                    vstd::slice::slice_subrange(data.as_slice(), 0, n),
                );
                self.consume(0, n);
                self.read_bytes = self.read_bytes + n as u64;
                Ok(Chunk::Data(chunk))
            },
            Action::ReadError(Some(error)) => {
                let error = error.clone();
                self.set(0, Action::ReadError(None));
                Err(error)
            },
            _ => Err(IoError::new(ErrorKind::WouldBlock)),
        }
    }

    /// What to panic with when written bytes depart from the script.
    fn mismatch_failure(&self, i: usize, src: &[u8], n: usize, k: usize) -> (failure: Failure)
        requires
            i < self@.actions.len(),
            k < n <= src.len(),
            script::takes_bytes(self@.actions[i as int]),
            n <= script::capacity(self@.actions[i as int]),
            self@.written_bytes + n <= u64::MAX,
        ensures
            failure@ == script::mismatch_failure(self@, i as int, src@, n as nat, k as nat),
    {
        let left: usize = self.actions.len() - i;
        match &self.actions[i] {
            Action::Write(data) => {
                let mut message = "name=".to_owned();
                message.append(self.name.as_str());
                message.append(" ");
                append_totals(&mut message, self.read_bytes, self.written_bytes);
                append_remaining(&mut message, left);
                let expected = vstd::slice::slice_to_vec(
                    vstd::slice::slice_subrange(data.as_slice(), 0, n),
                );
                let actual = vstd::slice::slice_to_vec(vstd::slice::slice_subrange(src, 0, n));
                Failure::Bytes { expected, actual, message }
            },
            _ => {
                let mut message = "byte_index=".to_owned();
                text::append_decimal(&mut message, k as u64);
                message.append(" ");
                append_totals(
                    &mut message,
                    self.read_bytes,
                    self.written_bytes + k as u64 + 1,
                );
                message.append(" name=");
                message.append(self.name.as_str());
                append_remaining(&mut message, left);
                Failure::NonZero { byte: src[k], message }
            },
        }
    }

    /// What to panic with when a write comes where a shutdown was expected.
    fn write_instead_of_shutdown(&self, i: usize) -> (failure: Failure)
        requires
            i < self@.actions.len(),
        ensures
            failure@ == script::write_instead_of_shutdown(self@, i as int),
    {
        let mut message = "unexpected write (a shutdown was expected) ".to_owned();
        append_totals(&mut message, self.read_bytes, self.written_bytes);
        message.append(" name=");
        message.append(self.name.as_str());
        append_remaining(&mut message, self.actions.len() - i);
        Failure::Script { message }
    }

    /// Hands the first `n` bytes of `src` to the action at place `i`. Tells whether departures
    /// are still objected to.
    fn give(&mut self, i: usize, src: &[u8], n: usize, checking: bool) -> (result: Result<
        bool,
        Failure,
    >)
        requires
            i < old(self)@.actions.len(),
            script::takes_bytes(old(self)@.actions[i as int]),
            n <= script::capacity(old(self)@.actions[i as int]),
            n <= src.len(),
            old(self)@.written_bytes + n <= u64::MAX,
        ensures
            match script::give(old(self)@, i as int, src@, n as nat, checking) {
                Ok((m, still)) => final(self)@ == m && result == Ok::<bool, Failure>(still),
                Err(failure) => final(self)@ == old(self)@ && (result matches Err(actual)
                    && actual@ == failure),
            },
    {
        let mut still = checking;
        if checking {
            match first_mismatch(&self.actions[i], src, n) {
                Some(k) => {
                    if self.panicless_tx.is_none() {
                        return Err(self.mismatch_failure(i, src, n, k));
                    }
                    let byte = match expected(&self.actions[i], k) {
                        Some(byte) => byte,
                        None => 0,
                    };
                    self.written_bytes = self.written_bytes + k as u64;
                    self.report(
                        Err(
                            MockOutcomeError::WrittenByteMismatch {
                                expected: byte,
                                actual: src[k],
                            },
                        ),
                    );
                    self.written_bytes = self.written_bytes - k as u64;
                    still = false;
                },
                None => {},
            }
        }
        self.written_bytes = self.written_bytes + n as u64;
        self.consume(i, n);
        Ok(still)
    }

    /// Hands `src` to the actions, as far as they take it.
    #[verifier::spinoff_prover]
    #[verifier::rlimit(40)]
    fn scan_write(&mut self, src: &[u8]) -> (result: Result<usize, Refusal>)
        requires
            old(self)@.written_bytes + src.len() <= u64::MAX,
        ensures
            ({
                let after = script::scan_write(
                    old(self)@,
                    0,
                    src@,
                    old(self)@.checks_enabled,
                );
                &&& final(self)@ == after.0
                &&& failure::write_view(result) == after.1
            }),
    {
        let ghost goal = script::scan_write(self@, 0, src@, self@.checks_enabled);
        let mut checking = self.checks_enabled;
        let mut taken: usize = 0;
        let mut i: usize = 0;
        let len: usize = self.actions.len();
        assert(src@.skip(0) =~= src@);
        while i < len
            invariant
                i <= len,
                len == self@.actions.len(),
                taken <= src.len(),
                goal == script::scan_write(old(self)@, 0, src@, old(self)@.checks_enabled),
                self@.written_bytes + (src.len() - taken) <= u64::MAX,
                ({
                    let after = script::scan_write(
                        self@,
                        i as nat,
                        src@.skip(taken as int),
                        checking,
                    );
                    &&& goal.0 == after.0
                    &&& goal.1 == match after.1 {
                        Ok(n) => Ok::<nat, script::RefusalView>((taken + n) as nat),
                        Err(refusal) => Err(refusal),
                    }
                }),
            decreases len - i,
        {
            let rest = vstd::slice::slice_subrange(src, taken, src.len());
            assert(rest@ =~= src@.skip(taken as int));
            match capacity(&self.actions[i]) {
                Some(room) => {
                    let n: usize = if rest.len() <= room {
                        rest.len()
                    } else {
                        room
                    };
                    match self.give(i, rest, n, checking) {
                        Ok(still) => {
                            checking = still;
                        },
                        Err(failure) => {
                            return Err(Refusal::Failure(failure));
                        },
                    }
                    if n == rest.len() {
                        return Ok(taken + n);
                    }
                    assert(src@.skip(taken as int).skip(n as int) =~= src@.skip(taken + n));
                    taken = taken + n;
                },
                None => match &self.actions[i] {
                    Action::WriteShutdown(_) => {
                        if checking {
                            if self.panicless_tx.is_none() {
                                return Err(Refusal::Failure(self.write_instead_of_shutdown(i)));
                            }
                            self.report(Err(MockOutcomeError::WriteInsteadOfShutdown));
                        }
                        self.set(i, Action::WriteShutdown(true));
                        return Err(Refusal::Io(IoError::new(ErrorKind::InvalidData)));
                    },
                    Action::StopChecking => {
                        checking = false;
                    },
                    Action::Wait(_) | Action::WriteError(_) => {
                        return Ok(taken);
                    },
                    _ => {},
                },
            }
            i = i + 1;
        }
        Ok(taken)
    }

    /// Writes `src` at time `now`. The result is the number of bytes that the script took.
    pub fn write(&mut self, src: &[u8], now: Duration) -> (result: Result<usize, Refusal>)
        requires
            old(self)@.written_bytes + src.len() <= u64::MAX,
        ensures
            final(self)@ == script::write(old(self)@, src@, now@).0,
            failure::write_view(result) == script::write(old(self)@, src@, now@).1,
    {
        if self.actions.len() == 0 {
            return Err(Refusal::Io(IoError::new(ErrorKind::BrokenPipe)));
        }
        proof {
            advancing::advance_keeps(self@, now@);
        }
        if self.action(now) {
            match &self.actions[0] {
                Action::Wait(_) => {
                    return Err(Refusal::Io(IoError::new(ErrorKind::WouldBlock)));
                },
                Action::WriteError(Some(error)) => {
                    let error = error.clone();
                    self.set(0, Action::WriteError(None));
                    return Err(Refusal::Io(error));
                },
                _ => {},
            }
        }
        self.scan_write(src)
    }

    /// What to panic with when a shutdown comes before a write.
    fn shutdown_instead_of_write(&self, i: usize) -> (failure: Failure)
        requires
            i < self@.actions.len(),
        ensures
            failure@ == script::shutdown_instead_of_write(self@, i as int),
    {
        let mut message =
            "Unexpected shutdown (there are more pending write actions) name=".to_owned();
        message.append(self.name.as_str());
        message.append(" ");
        append_totals(&mut message, self.read_bytes, self.written_bytes);
        append_remaining(&mut message, self.actions.len() - i);
        Failure::Script { message }
    }

    /// Shuts the writing side down at time `now`.
    pub fn shutdown(&mut self, now: Duration) -> (result: Result<(), Refusal>)
        ensures
            final(self)@ == script::shutdown(old(self)@, now@).0,
            failure::shutdown_view(result) == script::shutdown(old(self)@, now@).1,
    {
        if self.actions.len() == 0 {
            return Ok(());
        }
        if self.action(now) {
            match &self.actions[0] {
                Action::Wait(_) => {
                    return Err(Refusal::Io(IoError::new(ErrorKind::WouldBlock)));
                },
                _ => {},
            }
        }
        let mut checking = self.checks_enabled;
        let mut i: usize = 0;
        let len: usize = self.actions.len();
        let ghost goal = script::scan_shutdown(self@, 0, checking);
        while i < len
            invariant
                i <= len,
                len == self@.actions.len(),
                goal == script::shutdown(old(self)@, now@),
                goal == script::scan_shutdown(self@, i as nat, checking),
            decreases len - i,
        {
            match &self.actions[i] {
                Action::Write(_)
                | Action::IgnoreWritten(_)
                | Action::WriteError(_)
                | Action::WriteZeroes(_) => {
                    if checking {
                        if self.panicless_tx.is_none() {
                            return Err(Refusal::Failure(self.shutdown_instead_of_write(i)));
                        }
                        self.report(Err(MockOutcomeError::ShutdownInsteadOfWrite));
                        return Err(Refusal::Io(IoError::new(ErrorKind::InvalidData)));
                    }
                },
                Action::WriteShutdown(_) => {
                    self.set(i, Action::WriteShutdown(true));
                    return Ok(());
                },
                Action::StopChecking => {
                    checking = false;
                },
                Action::Wait(_) => {
                    return Ok(());
                },
                _ => {},
            }
            i = i + 1;
        }
        Ok(())
    }

    /// The span of the wait at the head of the script at time `now`.
    pub fn remaining_wait(&mut self, now: Duration) -> (span: Option<Duration>)
        ensures
            final(self)@ == script::advance(old(self)@, now@),
            match span {
                Some(span) => script::remaining_wait(old(self)@, now@) == Some(span@),
                None => script::remaining_wait(old(self)@, now@) is None,
            },
    {
        if self.action(now) {
            match &self.actions[0] {
                Action::Wait(span) => Some(*span),
                _ => None,
            }
        } else {
            None
        }
    }

    /// Adds an action to the script.
    pub fn push(&mut self, a: Action)
        ensures
            final(self)@ == old(self)@.pushed(a@),
    {
        self.actions.push_back(a);
        assert(self@ =~= old(self)@.pushed(a@));
    }

    /// Whether the script is empty.
    pub fn is_empty(&self) -> (empty: bool)
        ensures
            empty == (self@.actions.len() == 0),
    {
        self.actions.len() == 0
    }

    /// Whether shutdowns are held to the script.
    pub fn checks_shutdown(&self) -> (checks: bool)
        ensures
            checks == self@.shutdown_checking_enabled,
    {
        self.shutdown_checking_enabled
    }

    /// The number of bytes read so far.
    pub fn read_bytes(&self) -> (n: u64)
        ensures
            n == self@.read_bytes,
    {
        self.read_bytes
    }

    /// The number of bytes written so far.
    pub fn written_bytes(&self) -> (n: u64)
        ensures
            n == self@.written_bytes,
    {
        self.written_bytes
    }

    /// Whether, at time `now`, a reader can go on or will find that nothing more comes.
    pub fn reader_may_go(&mut self, now: Duration) -> (may_go: bool)
        ensures
            final(self)@ == script::advance(old(self)@, now@),
            may_go == final(self)@.reader_may_go(),
    {
        if self.action(now) {
            match &self.actions[0] {
                Action::Read(_)
                | Action::ReadZeroes(_)
                | Action::ReadEof(_)
                | Action::ReadError(_) => true,
                _ => false,
            }
        } else {
            true
        }
    }

    /// Whether nothing in the script can take a write, now or later.
    pub fn has_no_place_for_a_write(&self) -> (none: bool)
        ensures
            none == self@.has_no_place_for_a_write(),
    {
        let mut i: usize = 0;
        while i < self.actions.len()
            invariant
                i <= self.actions.len(),
                forall|j: int|
                    0 <= j < i ==> !script::is_for_writer(#[trigger] self@.actions[j]),
            decreases self.actions.len() - i,
        {
            if is_for_writer(&self.actions[i]) {
                assert(script::is_for_writer(self@.actions[i as int]));
                return false;
            }
            i = i + 1;
        }
        true
    }

    /// Whether departures are objected to.
    pub fn checks_enabled(&self) -> (checks: bool)
        ensures
            checks == self@.checks_enabled,
    {
        self.checks_enabled
    }

    /// Whether a shutdown comes next, and anything else is objected to.
    pub fn demands_shutdown(&self) -> (demands: bool)
        ensures
            demands == self@.demands_shutdown(),
    {
        if self.actions.len() == 0 {
            return false;
        }
        match &self.actions[0] {
            Action::WriteShutdown(_) => self.shutdown_checking_enabled && self.checks_enabled,
            _ => false,
        }
    }

    /// Objects to a read where a shutdown was expected: in the report, if there is one to be
    /// made. Gives what to panic with instead.
    pub fn object_to_read(&mut self) -> (failure: Option<Failure>)
        requires
            old(self)@.demands_shutdown(),
        ensures
            final(self)@ == script::object_to_read(old(self)@).0,
            match failure {
                Some(failure) => !old(self)@.armed && failure@ == script::read_instead_of_shutdown(
                    old(self)@,
                ),
                None => old(self)@.armed,
            },
    {
        if self.panicless_tx.is_none() {
            let mut message = "unexpected read (a shutdown was expected) ".to_owned();
            append_totals(&mut message, self.read_bytes, self.written_bytes);
            message.append(" name=");
            message.append(self.name.as_str());
            append_remaining(&mut message, self.actions.len());
            return Some(Failure::Script { message });
        }
        self.report(Err(MockOutcomeError::Other));
        self.set(0, Action::WriteShutdown(true));
        None
    }

    /// Objects to an operation that the script has no place for: in the report, if there is
    /// one to be made. Tells whether it calls for a panic instead.
    pub fn object(&mut self, error: MockOutcomeError) -> (panics: bool)
        ensures
            panics == (old(self)@.checks_enabled && !old(self)@.armed),
            final(self)@ == if old(self)@.checks_enabled && old(self)@.armed {
                old(self)@.reported(Err(error))
            } else {
                old(self)@
            },
    {
        if self.checks_enabled {
            if self.panicless_tx.is_none() {
                return true;
            }
            self.report(Err(error));
        }
        false
    }

    /// The state of the mock, for a message.
    pub fn pmsg(&self) -> (message: String)
        ensures
            message@ == script::summary(self@),
    {
        let mut message = if self.name.as_str().is_empty() {
            "(".to_owned()
        } else {
            let mut opening = "(name ".to_owned();
            opening.append(self.name.as_str());
            opening.append(", ");
            opening
        };
        text::append_decimal(&mut message, self.actions.len() as u64);
        message.append(" actions remain, ");
        text::append_decimal(&mut message, self.read_bytes);
        message.append(" bytes was read, ");
        text::append_decimal(&mut message, self.written_bytes);
        message.append(" bytes was written)");
        message
    }

    /// A mock, for debugging.
    pub fn debug_text(&self) -> (message: String)
        ensures
            message@ == script::debug_text(self@),
    {
        if self.name.as_str().is_empty() {
            "Inner {...}".to_owned()
        } else {
            let mut message = "Inner {name=".to_owned();
            message.append(self.name.as_str());
            message.append(", ...}");
            message
        }
    }

    /// What to panic with when the mock ends with an action still in its script.
    fn left_over_failure(&self, a: &Action) -> (failure: Failure)
        requires
            script::left_over(a@) is Some,
        ensures
            failure@ == script::left_over_failure(self@, a@),
    {
        let mut message = match a {
            Action::Read(_) | Action::ReadZeroes(_) => {
                "There is still data left to read. ".to_owned()
            },
            Action::ReadEof(_) => {
                "There is still a read EOF event that was not observed ".to_owned()
            },
            Action::Write(_) | Action::WriteZeroes(_) => {
                "There is still data left to write. ".to_owned()
            },
            _ => {
                "There is still data left to write (even though content is to be ignored). "
                    .to_owned()
            },
        };
        message.append(self.pmsg().as_str());
        Failure::Script { message }
    }

    /// Whether the end of checking has been reached: nothing stands before it that is not spent.
    fn checking_is_over(&self) -> (over: bool)
        ensures
            over == script::checking_is_over(self@.actions),
    {
        let mut i: usize = 0;
        assert(self@.actions.skip(0) =~= self@.actions);
        while i < self.actions.len()
            invariant
                i <= self.actions.len(),
                script::checking_is_over(self@.actions) == script::checking_is_over(
                    self@.actions.skip(i as int),
                ),
            decreases self.actions.len() - i,
        {
            proof {
                let here = self@.actions.skip(i as int);
                assert(here[0] == self.actions@[i as int]@);
                assert(here.skip(1) =~= self@.actions.skip(i + 1));
            }
            match &self.actions[i] {
                Action::StopChecking => {
                    return true;
                },
                other => {
                    if !is_spent(other) {
                        return false;
                    }
                },
            }
            i = i + 1;
        }
        false
    }

    /// Ends the mock: makes the report that is still to be made, or objects to what is left of
    /// the script. `panicking` says that a panic is already under way.
    pub fn finish(&mut self, panicking: bool) -> (result: Result<(), Failure>)
        ensures
            final(self)@ == script::finish(old(self)@, panicking).0,
            failure::finish_view(result) == script::finish(old(self)@, panicking).1,
    {
        let checks = self.checks_enabled && !self.checking_is_over();
        if self.panicless_tx.is_some() {
            let mut outcome = Ok(());
            if checks {
                let mut i: usize = 0;
                while i < self.actions.len()
                    invariant
                        i <= self.actions.len(),
                        *self == *old(self),
                        match script::last_left_over(self@.actions.take(i as int)) {
                            Some(error) => outcome == Err::<(), MockOutcomeError>(error),
                            None => outcome == Ok::<(), MockOutcomeError>(()),
                        },
                    decreases self.actions.len() - i,
                {
                    proof {
                        let seen = self@.actions.take(i + 1);
                        assert(seen.drop_last() =~= self@.actions.take(i as int));
                        assert(seen.last() == self.actions@[i as int]@);
                    }
                    match left_over(&self.actions[i]) {
                        Some(error) => {
                            outcome = Err(error);
                        },
                        None => {},
                    }
                    i = i + 1;
                }
                assert(self@.actions.take(i as int) =~= self@.actions);
            }
            self.report(outcome);
            return Ok(());
        }
        if panicking || !checks {
            return Ok(());
        }
        let mut i: usize = 0;
        while i < self.actions.len()
            invariant
                i <= self.actions.len(),
                *self == *old(self),
                !self@.armed && !panicking && self@.checks_enabled,
                !script::checking_is_over(self@.actions),
                script::first_left_over(self@.actions, 0) == script::first_left_over(
                    self@.actions,
                    i as nat,
                ),
            decreases self.actions.len() - i,
        {
            if left_over(&self.actions[i]).is_some() {
                return Err(self.left_over_failure(&self.actions[i]));
            }
            i = i + 1;
        }
        Ok(())
    }
}

} // verus!
