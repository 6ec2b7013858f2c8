//! What is objected to, and how.

use crate::laws::advancing;
use crate::laws::streams::{self, Operation};
use crate::script::{self, EventView, IncomingView, RefusalView, State};
use vstd::prelude::*;

verus! {

/// What no operation ever does: `m1`, which comes from `m`, has the name and the rules of `m`,
/// has read and written at least as much, and objects to no more than `m` does; a report that
/// was made or given up stays as it is, and making it ends all objections.
pub open spec fn follows(m: State, m1: State) -> bool {
    &&& m1.name == m.name
    &&& m1.shutdown_checking_enabled == m.shutdown_checking_enabled
    &&& m1.reporter == m.reporter
    &&& m1.read_bytes >= m.read_bytes
    &&& m1.written_bytes >= m.written_bytes
    &&& m1.checks_enabled ==> m.checks_enabled
    &&& m1.armed ==> m.armed
    &&& m1.armed == m.armed ==> m1.report == m.report
    &&& m1.armed != m.armed ==> m1.report is Some && !m1.checks_enabled
}

/// A mock that never panics: one whose departures go into a report, until the report is made.
pub open spec fn is_panicless(m: State) -> bool {
    m.armed || !m.checks_enabled
}

/// A step from `m` to `m1` that keeps the rules of the game: see [`follows`]. If it is `bad`,
/// which is to say a panic, then `m` objects and has no report to make. A mock that objects to
/// nothing does not begin to, and makes no report.
pub open spec fn is_orderly(m: State, m1: State, bad: bool) -> bool {
    &&& follows(m, m1)
    &&& is_panicless(m) ==> is_panicless(m1) && !bad
    &&& !m.checks_enabled ==> m1.report == m.report && m1.armed == m.armed
}

pub proof fn scan_write_is_orderly(m: State, i: nat, src: Seq<u8>, checking: bool)
    requires
        checking ==> m.checks_enabled,
    ensures
        ({
            let (m1, result) = script::scan_write(m, i, src, checking);
            &&& follows(m, m1)
            &&& is_panicless(m) ==> is_panicless(m1)
            &&& !checking ==> m1.report == m.report && m1.armed == m.armed
            &&& !checking || m.armed ==> !(result matches Err(RefusalView::Failure(_)))
        }),
    decreases m.actions.len() - i,
{
    if i < m.actions.len() {
        let a = m.actions[i as int];
        if script::takes_bytes(a) {
            let n = script::min(src.len(), script::capacity(a));
            if let Ok((m2, still)) = script::give(m, i as int, src, n, checking) {
                scan_write_is_orderly(m2, i + 1, src.skip(n as int), still);
            }
        } else if !(a is WriteShutdown || a is Wait || a is WriteError) {
            scan_write_is_orderly(m, i + 1, src, checking);
            scan_write_is_orderly(m, i + 1, src, false);
        }
    }
}

proof fn scan_shutdown_is_orderly(m: State, i: nat, checking: bool)
    requires
        checking ==> m.checks_enabled,
    ensures
        ({
            let (m1, result) = script::scan_shutdown(m, i, checking);
            &&& follows(m, m1)
            &&& is_panicless(m) ==> is_panicless(m1)
            &&& !checking ==> m1.report == m.report && m1.armed == m.armed
            &&& !checking || m.armed ==> !(result matches Err(RefusalView::Failure(_)))
        }),
    decreases m.actions.len() - i,
{
    if i < m.actions.len() {
        scan_shutdown_is_orderly(m, i + 1, checking);
        scan_shutdown_is_orderly(m, i + 1, false);
    }
}

/// Whatever is done to a mock: its name and its rules stay, its counts do not fall, checks that
/// were ended stay ended and from then on nothing is objected to or reported. A mock that makes a
/// report never panics, and makes it at most once.
pub proof fn operations_are_orderly(m: State, room: nat, src: Seq<u8>, now: nat)
    ensures
        ({
            let (m1, step) = script::poll_read(m, room, now);
            is_orderly(m, m1, step is Panic)
        }),
        ({
            let (m1, step) = script::poll_write(m, src, now);
            is_orderly(m, m1, step is Panic)
        }),
        ({
            let (m1, step) = script::poll_shutdown(m, now);
            is_orderly(m, m1, step is Panic)
        }),
{
    advancing::advance_keeps(m, now);
    let m1 = script::advance(m, now);
    let read = script::read(m, room, now).0;
    advancing::advance_keeps(read, now);
    scan_write_is_orderly(m1, 0, src, m1.checks_enabled);
    let write = script::write(m, src, now).0;
    advancing::advance_keeps(write, now);
    scan_shutdown_is_orderly(m1, 0, m1.checks_enabled);
    let shutdown = script::shutdown(m, now).0;
    advancing::advance_keeps(shutdown, now);
}

/// The same of what comes through the channel.
pub proof fn incoming_is_orderly(m: State, incoming: IncomingView)
    ensures
        ({
            let (m1, step) = script::read_incoming(m, incoming);
            is_orderly(m, m1, step is Panic)
        }),
        ({
            let (m1, step) = script::write_opening(m, incoming);
            is_orderly(m, m1, step is Panic)
        }),
        ({
            let (m1, step) = script::write_incoming(m, incoming);
            is_orderly(m, m1, step is Panic)
        }),
        ({
            let (m1, step) = script::shutdown_opening(m, incoming);
            is_orderly(m, m1, step is Panic)
        }),
{
}

/// The same of every turn.
pub proof fn turn_is_orderly(m: State, operation: Operation)
    ensures
        is_orderly(m, streams::after(m, operation).0, panics(m, operation)),
{
    let incoming = match operation.event() {
        EventView::Begin => IncomingView::Pending,
        EventView::Opening(incoming) => incoming,
        EventView::Incoming(incoming) => incoming,
    };
    incoming_is_orderly(m, incoming);
    match operation {
        Operation::Read { event: _, room, now } => {
            operations_are_orderly(m, room, Seq::empty(), now);
        },
        Operation::Write { event: _, src, now } => {
            operations_are_orderly(m, 0, src, now);
            operations_are_orderly(script::write_opening(m, incoming).0, 0, src, now);
        },
        Operation::Shutdown { event: _, now } => {
            operations_are_orderly(m, 0, Seq::empty(), now);
            operations_are_orderly(
                script::shutdown_opening(m, incoming).0,
                0,
                Seq::empty(),
                now,
            );
        },
    }
}

/// Whether a turn is answered by a panic.
pub open spec fn panics(m: State, operation: Operation) -> bool {
    match operation {
        Operation::Read { event, room, now } => script::read_turn(m, event, room, now).1 is Panic,
        Operation::Write { event, src, now } => script::write_turn(m, event, src, now).1 is Panic,
        Operation::Shutdown { event, now } => script::shutdown_turn(m, event, now).1 is Panic,
    }
}

/// The same of whole runs: a report that was made stays as it is, and a mock that makes a report
/// still is one that never panics.
pub proof fn run_is_orderly(m: State, run: Seq<Operation>)
    ensures
        ({
            let m1 = streams::after_all(m, run).0;
            &&& follows(m, m1)
            &&& is_panicless(m) ==> is_panicless(m1)
            &&& !m.checks_enabled ==> m1.report == m.report && m1.armed == m.armed
        }),
    decreases run.len(),
{
    if run.len() > 0 {
        run_is_orderly(m, run.drop_last());
        let m1 = streams::after_all(m, run.drop_last()).0;
        turn_is_orderly(m1, run.last());
    }
}

} // verus!
