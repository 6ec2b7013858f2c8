//! What the next operation is answered.

use crate::action::ActionView;
use crate::error::{ErrorKind, IoError};
use crate::laws::advancing;
use crate::outcome::{MockOutcome, MockOutcomeError};
use crate::script::{self, EventView, FailureView, IncomingView, RefusalView, State, StepView};
use vstd::prelude::*;

verus! {

/// A reader with enough room is given the buffer that comes next in the script, and the script
/// moves on.
pub proof fn read_is_given_the_buffer(m: State, buf: Seq<u8>, room: nat, now: nat)
    requires
        buf.len() <= room,
        ({
            let m1 = script::advance(m, now);
            &&& m1.actions.len() > 0
            &&& m1.actions[0] == ActionView::Read(buf) || m1.actions[0] == ActionView::ReadZeroes(
                buf.len(),
            ) && buf == script::zeroes(buf.len())
        }),
    ensures
        ({
            let (m2, step) = script::poll_read(m, room, now);
            let behind = State {
                read_bytes: m.read_bytes + buf.len(),
                ..script::advance(m, now).popped()
            };
            &&& step == script::ready(Ok(buf), false)
            &&& script::advance(m2, now) == script::advance(behind, now)
        }),
{
    advancing::advance_keeps(m, now);
    let m1 = script::advance(m, now);
    let (m2, step) = script::poll_read(m, room, now);
    assert(script::readable(m1.actions[0]).take(buf.len() as int) =~= buf);
    assert(m2.popped().actions =~= m1.popped().actions);
}

/// A reader that comes to an end of file in the script is told so, and the script moves on.
pub proof fn read_meets_end_of_file(m: State, room: nat, now: nat)
    requires
        ({
            let m1 = script::advance(m, now);
            m1.actions.len() > 0 && m1.actions[0] is ReadEof
        }),
    ensures
        ({
            let (m2, step) = script::poll_read(m, room, now);
            &&& step == script::ready(Ok(Seq::<u8>::empty()), false)
            &&& script::advance(m2, now) == script::advance(script::advance(m, now).popped(), now)
        }),
{
    let m1 = script::advance(m, now);
    let (m2, step) = script::poll_read(m, room, now);
    assert(m2.popped().actions =~= m1.popped().actions);
}

/// A reader that comes to an error in the script gets it, once, and the script moves on.
pub proof fn read_meets_error(m: State, error: IoError, room: nat, now: nat)
    requires
        !(error.kind is WouldBlock),
        ({
            let m1 = script::advance(m, now);
            m1.actions.len() > 0 && m1.actions[0] == ActionView::ReadError(Some(error))
        }),
    ensures
        ({
            let (m2, step) = script::poll_read(m, room, now);
            &&& step == script::ready(Err::<Seq<u8>, IoError>(error), false)
            &&& script::advance(m2, now) == script::advance(script::advance(m, now).popped(), now)
        }),
{
    let m1 = script::advance(m, now);
    let (m2, step) = script::poll_read(m, room, now);
    assert(m2.popped().actions =~= m1.popped().actions);
}

/// A writer that comes to an error in the script gets it, once, and the script moves on.
pub proof fn write_meets_error(m: State, error: IoError, src: Seq<u8>, now: nat)
    requires
        !(error.kind is WouldBlock),
        ({
            let m1 = script::advance(m, now);
            m1.actions.len() > 0 && m1.actions[0] == ActionView::WriteError(Some(error))
        }),
    ensures
        ({
            let (m2, step) = script::poll_write(m, src, now);
            &&& step matches StepView::Ready { result: Err(answer), wake_reader: _ }
            &&& answer == error
            &&& m2 == script::advance(script::advance(m, now).popped(), now)
        }),
{
    advancing::advance_keeps(m, now);
    let m1 = script::advance(m, now);
    let m2 = script::write(m, src, now).0;
    assert(m2.popped().actions =~= m1.popped().actions);
}

/// At the end of the script, when no more actions can come, a reader is told of the end of the
/// file.
pub proof fn read_at_the_end(m: State, room: nat, now: nat)
    requires
        script::advance(m, now).actions.len() == 0,
    ensures
        ({
            let (m1, step) = script::read_turn(m, EventView::Begin, room, now);
            &&& step is Poll
            &&& script::read_turn(m1, EventView::Incoming(IncomingView::Closed), room, now).1
                == script::ready(Ok(Seq::<u8>::empty()), false)
        }),
{
}

/// A write looks past what has no place for it.
proof fn write_finds_no_place(m: State, i: nat, src: Seq<u8>, checking: bool)
    requires
        m.has_no_place_for_a_write(),
    ensures
        script::scan_write(m, i, src, checking) == (m, Ok::<nat, RefusalView>(0)),
    decreases m.actions.len() - i,
{
    if i < m.actions.len() {
        let a = m.actions[i as int];
        assert(!script::is_for_writer(a));
        write_finds_no_place(m, i + 1, src, checking);
        if script::takes_bytes(a) {
            assert(script::consumed(a, 0) =~~= a);
            assert(m.actions.update(i as int, a) =~= m.actions);
            assert(src.skip(0) =~= src);
            assert(script::give(m, i as int, src, 0, checking) == Ok::<
                (State, bool),
                FailureView,
            >((m, checking)));
        }
    }
}

/// Where nothing in the script can take a write, and no more actions can come, data that is
/// written is unexpected: the write fails, and it is reported, or else it is a panic. That is so
/// where only reads are left, and at the end of the script; there it is so of an empty write too,
/// and once checking has ended it fails without a report.
pub proof fn write_without_a_place(m: State, src: Seq<u8>, now: nat)
    requires
        ({
            let m1 = script::advance(m, now);
            ||| m1.actions.len() == 0
            ||| m1.has_no_place_for_a_write() && m1.checks_enabled && src.len() > 0
        }),
    ensures
        ({
            let checks = script::advance(m, now).checks_enabled;
            let closed = IncomingView::Closed;
            let (m1, step, _) = script::write_round(m, closed, closed, src, now);
            if checks && !m.armed {
                step is Panic
            } else {
                &&& step == script::ready(
                    Err::<usize, IoError>(script::plain_error(ErrorKind::BrokenPipe)),
                    false,
                )
                &&& m1.report == if checks {
                    Some(
                        MockOutcome {
                            outcome: Err(MockOutcomeError::UnexpectedWrite),
                            total_read_bytes: m.read_bytes as u64,
                            total_written_bytes: m.written_bytes as u64,
                        },
                    )
                } else {
                    m.report
                }
            }
        }),
{
    let m1 = script::advance(m, now);
    advancing::advance_keeps(m, now);
    advancing::advance_is_idempotent(m, now);
    if m1.actions.len() > 0 {
        assert(!script::is_for_writer(m1.actions[0]));
    }
    write_finds_no_place(m1, 0, src, m1.checks_enabled);
}

/// Where reads are left that a write has to wait for, an empty write waits, and so does every write
/// once checking has ended.
pub proof fn write_waits_for_the_reader(m: State, src: Seq<u8>, now: nat)
    requires
        ({
            let m1 = script::advance(m, now);
            &&& m1.actions.len() > 0
            &&& m1.has_no_place_for_a_write()
            &&& src.len() == 0 || !m1.checks_enabled
        }),
    ensures
        script::poll_write(m, src, now) == (script::advance(m, now), StepView::<usize>::Pending),
{
    let m1 = script::advance(m, now);
    advancing::advance_keeps(m, now);
    advancing::advance_is_idempotent(m, now);
    assert(!script::is_for_writer(m1.actions[0]));
    write_finds_no_place(m1, 0, src, m1.checks_enabled);
}

/// A read where a shutdown is expected is objected to, if shutdowns are held to the script: it
/// fails and is reported, and without a report it is a panic.
pub proof fn read_instead_of_shutdown_is_objected_to(m: State, room: nat, now: nat)
    requires
        script::advance(m, now).demands_shutdown(),
    ensures
        ({
            let (m1, step) = script::poll_read(m, room, now);
            if m.armed {
                &&& step == script::ready(
                    Err::<Seq<u8>, IoError>(script::plain_error(ErrorKind::InvalidData)),
                    false,
                )
                &&& m1.report == Some(
                    MockOutcome {
                        outcome: Err(MockOutcomeError::Other),
                        total_read_bytes: m.read_bytes as u64,
                        total_written_bytes: m.written_bytes as u64,
                    },
                )
            } else {
                step is Panic
            }
        }),
{
    advancing::advance_keeps(m, now);
    advancing::advance_is_idempotent(m, now);
}

/// A reader that waits for the writer is woken when it can go on: if the reading side has an
/// answer after a write, or is to look at the channel, then the write wakes the reader. Left out
/// are scripted errors that say of themselves that the write would block, and a shutdown that
/// comes next, which the reader may still wait for.
pub proof fn write_wakes_the_reader(m: State, src: Seq<u8>, room: nat, now: nat)
    requires
        script::write(m, src, now).1 matches Err(RefusalView::Io(error)) ==> !(
        error.kind is WouldBlock),
    ensures
        ({
            let (m1, step) = script::poll_write(m, src, now);
            let next = script::poll_read(m1, room, now).1;
            step matches StepView::Ready { result: _, wake_reader } ==> (!m1.demands_shutdown()
                && (next is Ready || next is Poll) ==> wake_reader)
        }),
{
    let m1 = script::write(m, src, now).0;
    advancing::advance_is_idempotent(m1, now);
    advancing::advance_keeps(m1, now);
}

/// The same of a shutdown that the script expects.
pub proof fn shutdown_wakes_the_reader(m: State, room: nat, now: nat)
    requires
        m.shutdown_checking_enabled,
        script::shutdown(m, now).1 is Ok,
    ensures
        ({
            let (m1, step) = script::poll_shutdown(m, now);
            let next = script::poll_read(m1, room, now).1;
            step matches StepView::Ready { result: _, wake_reader } && (!m1.demands_shutdown()
                && (next is Ready || next is Poll) ==> wake_reader)
        }),
{
    let m1 = script::shutdown(m, now).0;
    advancing::advance_is_idempotent(m1, now);
    advancing::advance_keeps(m1, now);
}

} // verus!
