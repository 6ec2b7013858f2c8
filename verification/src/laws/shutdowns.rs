//! When the writing side may be shut down.

use crate::action::ActionView;
use crate::error::{ErrorKind, IoError};
use crate::laws::advancing;
use crate::laws::conformance;
use crate::laws::reads;
use crate::outcome::{MockOutcome, MockOutcomeError};
use crate::script::{self, EventView, IncomingView, State, StepView};
use vstd::prelude::*;

verus! {

/// Whether an action is for the writing side to bring about.
pub open spec fn wants_a_write(a: ActionView) -> bool {
    a is Write || a is WriteZeroes || a is IgnoreWritten || a is WriteError
}

/// Whether an action is for the reading side alone.
pub open spec fn is_for_reader(a: ActionView) -> bool {
    a is Read || a is ReadZeroes || a is ReadEof || a is ReadError
}

/// A shutdown looks past what is for the reader.
proof fn shutdown_looks_past(m: State, i: nat, j: nat, checking: bool)
    requires
        i <= j <= m.actions.len(),
        forall|k: int| i <= k < j ==> is_for_reader(#[trigger] m.actions[k]),
    ensures
        script::scan_shutdown(m, i, checking) == script::scan_shutdown(m, j, checking),
    decreases j - i,
{
    if i < j {
        assert(is_for_reader(m.actions[i as int]));
        shutdown_looks_past(m, i + 1, j, checking);
    }
}

/// A shutdown that finds nothing to write succeeds.
proof fn shutdown_finds_no_write(m: State, i: nat, checking: bool)
    requires
        forall|k: int| 0 <= k < m.actions.len() ==> !wants_a_write(#[trigger] m.actions[k]),
    ensures
        ({
            let (m1, result) = script::scan_shutdown(m, i, checking);
            &&& result is Ok
            &&& m1.report == m.report
            &&& m1.armed == m.armed
        }),
    decreases m.actions.len() - i,
{
    if i < m.actions.len() {
        assert(!wants_a_write(m.actions[i as int]));
        shutdown_finds_no_write(m, i + 1, checking);
        shutdown_finds_no_write(m, i + 1, false);
    }
}

/// A mock that does not hold shutdowns to the script allows them at any time.
pub proof fn unchecked_shutdown_succeeds(m: State, now: nat)
    requires
        !m.shutdown_checking_enabled,
    ensures
        script::poll_shutdown(m, now) == (m, reads::answer(Ok::<(), IoError>(()))),
{
}

/// A shutdown that comes where the script has one succeeds, and the script moves on behind it.
pub proof fn expected_shutdown_succeeds(m: State, now: nat, j: nat)
    requires
        m.shutdown_checking_enabled,
        ({
            let m1 = script::advance(m, now);
            &&& j < m1.actions.len()
            &&& m1.actions[j as int] is WriteShutdown
            &&& forall|k: int| 0 <= k < j ==> is_for_reader(#[trigger] m1.actions[k])
        }),
    ensures
        ({
            let m1 = reads::with_action(
                script::advance(m, now),
                j as int,
                ActionView::WriteShutdown(true),
            );
            let (m2, step) = script::poll_shutdown(m, now);
            &&& m2 == script::advance(m1, now)
            &&& step == conformance::woken(Ok::<(), IoError>(()), m2)
        }),
{
    let m1 = script::advance(m, now);
    advancing::advance_keeps(m, now);
    if j > 0 {
        assert(is_for_reader(m1.actions[0]));
    }
    shutdown_looks_past(m1, 0, j, m1.checks_enabled);
}

/// A shutdown is fine once there is nothing more to write, whether or not the script has one.
pub proof fn shutdown_after_all_writes_succeeds(m: State, now: nat)
    requires
        ({
            let m1 = script::advance(m, now);
            &&& m1.actions.len() > 0 ==> !(m1.actions[0] is Wait)
            &&& forall|k: int| 0 <= k < m1.actions.len() ==> !wants_a_write(#[trigger] m1.actions[k])
        }),
    ensures
        ({
            let (m2, step) = script::poll_shutdown(m, now);
            &&& step matches StepView::Ready { result: Ok(_), wake_reader: _ }
            &&& m2.report == m.report
            &&& m2.armed == m.armed
        }),
{
    let m1 = script::advance(m, now);
    advancing::advance_keeps(m, now);
    shutdown_finds_no_write(m1, 0, m1.checks_enabled);
    advancing::advance_keeps(script::shutdown(m, now).0, now);
}

/// A shutdown that comes before a write of the script is objected to: it fails and is reported,
/// and without a report it is a panic.
pub proof fn early_shutdown_is_objected_to(m: State, now: nat, j: nat)
    requires
        m.shutdown_checking_enabled,
        ({
            let m1 = script::advance(m, now);
            &&& m1.checks_enabled
            &&& j < m1.actions.len()
            &&& wants_a_write(m1.actions[j as int])
            &&& forall|k: int| 0 <= k < j ==> is_for_reader(#[trigger] m1.actions[k])
        }),
    ensures
        ({
            let (m2, step) = script::poll_shutdown(m, now);
            if m.armed {
                &&& step matches StepView::Ready { result: Err(error), wake_reader: _ }
                &&& error == reads::bare(ErrorKind::InvalidData)
                &&& m2.report == Some(
                    MockOutcome {
                        outcome: Err(MockOutcomeError::ShutdownInsteadOfWrite),
                        total_read_bytes: m.read_bytes as u64,
                        total_written_bytes: m.written_bytes as u64,
                    },
                )
            } else {
                step is Panic
            }
        }),
{
    let m1 = script::advance(m, now);
    advancing::advance_keeps(m, now);
    if j > 0 {
        assert(is_for_reader(m1.actions[0]));
    }
    shutdown_looks_past(m1, 0, j, true);
    advancing::advance_keeps(script::shutdown(m, now).0, now);
}

/// Whether departures are still objected to at place `k` of the script, if they are at place
/// `from`, where `checking` holds: no end of checking lies between.
pub open spec fn still_checks(m: State, from: int, k: int, checking: bool) -> bool {
    checking && forall|n: int| from <= n < k ==> !(#[trigger] m.actions[n] is StopChecking)
}

/// Whether a shutdown that looks at the script from place `from` on passes over place `k`: what is
/// there is for the reader, or is the end of checking, or is to be written and not checked.
pub open spec fn is_passed(m: State, from: int, k: int, checking: bool) -> bool {
    ||| is_for_reader(m.actions[k])
    ||| m.actions[k] is StopChecking
    ||| wants_a_write(m.actions[k]) && !still_checks(m, from, k, checking)
}

/// Whether place `j` is where a shutdown that looks at the script from place `from` on stops.
pub open spec fn stops_at(m: State, from: int, j: int, checking: bool) -> bool {
    &&& from <= j <= m.actions.len()
    &&& forall|k: int| from <= k < j ==> #[trigger] is_passed(m, from, k, checking)
    &&& j < m.actions.len() ==> !is_passed(m, from, j, checking)
}

/// What a shutdown makes of a script whose head is `m` at the place where it stops.
pub open spec fn shutdown_at(m: State, j: int) -> (State, Result<(), bool>) {
    if j < m.actions.len() && m.actions[j] is WriteShutdown {
        (reads::with_action(m, j, ActionView::WriteShutdown(true)), Ok(()))
    } else if j < m.actions.len() && wants_a_write(m.actions[j]) {
        if m.armed {
            (reads::after_report(m, MockOutcomeError::ShutdownInsteadOfWrite), Err(true))
        } else {
            (m, Err(false))
        }
    } else {
        (m, Ok(()))
    }
}

/// A shutdown stops at one place, which decides.
pub(crate) proof fn scan_stops(m: State, i: nat, checking: bool) -> (j: int)
    requires
        i <= m.actions.len(),
    ensures
        stops_at(m, i as int, j, checking),
        ({
            let (m1, result) = script::scan_shutdown(m, i, checking);
            let (m2, verdict) = shutdown_at(m, j);
            &&& m1 == m2
            &&& verdict is Ok ==> result is Ok
            &&& verdict == Err::<(), bool>(true) ==> result == Err::<(), script::RefusalView>(
                script::RefusalView::Io(reads::bare(ErrorKind::InvalidData)),
            )
            &&& verdict == Err::<(), bool>(false) ==> (result matches Err(
                script::RefusalView::Failure(_),
            ))
        }),
    decreases m.actions.len() - i,
{
    let from = i as int;
    if i < m.actions.len() && is_passed(m, from, from, checking) {
        let a = m.actions[from];
        let then = checking && !(a is StopChecking);
        assert(wants_a_write(a) ==> !checking);
        let j = scan_stops(m, i + 1, then);
        assert forall|k: int| from < k <= m.actions.len() implies #[trigger] still_checks(
            m,
            from,
            k,
            checking,
        ) == still_checks(m, from + 1, k, then) by {
            if still_checks(m, from + 1, k, then) {
                assert forall|n: int| from <= n < k implies !(
                #[trigger] m.actions[n] is StopChecking) by {
                    if n == from {
                        assert(!(a is StopChecking));
                    }
                }
            }
        }
        assert forall|k: int| from <= k < j implies #[trigger] is_passed(m, from, k, checking) by {
            if k > from {
                assert(is_passed(m, from + 1, k, then));
                assert(still_checks(m, from, k, checking) == still_checks(m, from + 1, k, then));
            }
        }
        if j < m.actions.len() {
            assert(still_checks(m, from, j, checking) == still_checks(m, from + 1, j, then));
        }
        j
    } else {
        from
    }
}

/// A shutdown looks on at the place where it stops.
pub(crate) proof fn shutdown_looks_from(m: State, i: nat, j: nat, checking: bool)
    requires
        stops_at(m, i as int, j as int, checking),
    ensures
        script::scan_shutdown(m, i, checking) == script::scan_shutdown(
            m,
            j,
            still_checks(m, i as int, j as int, checking),
        ),
    decreases j - i,
{
    let from = i as int;
    if i < j {
        let a = m.actions[from];
        let then = checking && !(a is StopChecking);
        assert(is_passed(m, from, from, checking));
        assert(wants_a_write(a) ==> !checking);
        assert forall|k: int| from < k <= j implies #[trigger] still_checks(m, from, k, checking)
            == still_checks(m, from + 1, k, then) by {
            if still_checks(m, from + 1, k, then) {
                assert forall|n: int| from <= n < k implies !(
                #[trigger] m.actions[n] is StopChecking) by {
                    if n == from {
                        assert(!(a is StopChecking));
                    }
                }
            }
        }
        assert forall|k: int| from + 1 <= k < j implies #[trigger] is_passed(
            m,
            from + 1,
            k,
            then,
        ) by {
            assert(is_passed(m, from, k, checking));
            assert(still_checks(m, from, k, checking) == still_checks(m, from + 1, k, then));
        }
        assert(still_checks(m, from, j as int, checking) == still_checks(
            m,
            from + 1,
            j as int,
            then,
        ));
        shutdown_looks_from(m, i + 1, j, then);
    }
}

/// A shutdown passes over what is for the reader, and over what is to be written once departures
/// are no longer objected to. The place where it stops decides: a shutdown in the script is marked
/// as seen, a write is objected to, and anything else lets it succeed. Nothing else changes, but
/// that the script moves on. During a wait a shutdown is to sleep.
pub proof fn shutdown_is_decided_where_it_stops(m: State, now: nat) -> (j: int)
    requires
        m.shutdown_checking_enabled,
    ensures
        ({
            let m1 = script::advance(m, now);
            let (m2, step) = script::poll_shutdown(m, now);
            if m1.actions.len() > 0 && m1.actions[0] is Wait {
                m2 == m1 && step == StepView::<()>::Sleep(m1.actions[0]->Wait_0)
            } else {
                let (w, verdict) = shutdown_at(m1, j);
                let m3 = script::advance(w, now);
                &&& stops_at(m1, 0, j, m1.checks_enabled)
                &&& match verdict {
                    Ok(_) => m2 == m3 && step == conformance::woken(Ok::<(), IoError>(()), m3),
                    Err(true) => m2 == m3 && step == conformance::woken(
                        Err::<(), IoError>(reads::bare(ErrorKind::InvalidData)),
                        m3,
                    ),
                    Err(false) => m2 == w && step is Panic,
                }
            }
        }),
{
    let m1 = script::advance(m, now);
    advancing::advance_keeps(m, now);
    advancing::advance_is_idempotent(m, now);
    scan_stops(m1, 0, m1.checks_enabled)
}

/// What a shutdown makes of the channel. If shutdowns are held to the script and the script is
/// empty, it begins with a look; at the end of the channel it succeeds, and what has come stands
/// at the end of the script.
pub proof fn shutdown_takes_what_comes(m: State, incoming: IncomingView, now: nat)
    ensures
        script::shutdown_turn(m, EventView::Begin, now) == if m.shutdown_checking_enabled
            && m.actions.len() == 0 {
            (m, StepView::<()>::Open)
        } else {
            script::poll_shutdown(m, now)
        },
        script::shutdown_turn(m, EventView::Opening(incoming), now) == script::shutdown_turn(
            m,
            EventView::Incoming(incoming),
            now,
        ),
        script::shutdown_turn(m, EventView::Opening(incoming), now) == match incoming {
            IncomingView::Pending => script::poll_shutdown(m, now),
            IncomingView::Closed => (m, reads::answer(Ok::<(), IoError>(()))),
            IncomingView::Action(a) => script::poll_shutdown(
                State { actions: m.actions.push(a), ..m },
                now,
            ),
        },
{
}

/// A round of a shutdown is a turn, and the look at the channel that it asks for.
pub proof fn shutdown_round_makes_one_look(m: State, look: IncomingView, now: nat)
    ensures
        ({
            let (m1, step) = script::shutdown_turn(m, EventView::Begin, now);
            let (m2, answer, looks) = script::shutdown_round(m, look, now);
            if step is Open {
                &&& (m2, answer) == script::shutdown_turn(m1, EventView::Opening(look), now)
                &&& looks == seq![look]
            } else {
                m2 == m1 && answer == step && looks == Seq::<IncomingView>::empty()
            }
        }),
{
}

} // verus!
