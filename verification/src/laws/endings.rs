//! When a mock may end.

use crate::action::ActionView;
use crate::laws::advancing;
use crate::laws::streams::{self, Operation};
use crate::outcome::MockOutcomeError;
use crate::script::{self, State};
use vstd::prelude::*;

verus! {

/// Whether all bytes of the script have been read, all that it expects have been written, and
/// all its ends of file have been seen.
pub open spec fn is_complete(actions: Seq<ActionView>) -> bool {
    &&& streams::read_stream(actions).len() == 0
    &&& streams::write_stream(actions).len() == 0
    &&& forall|i: int| 0 <= i < actions.len() ==> #[trigger] actions[i] != ActionView::ReadEof(false)
}

/// Whether the end of checking at place `k` of a script has been reached: nothing before it has
/// anything left to do.
pub open spec fn is_reached(actions: Seq<ActionView>, k: int) -> bool {
    &&& 0 <= k < actions.len()
    &&& actions[k] is StopChecking
    &&& forall|i: int| 0 <= i < k ==> advancing::is_done(#[trigger] actions[i])
}

/// Whether a mock still objects to departures: checking has not ended, nor has an end of checking
/// been reached in its script.
pub open spec fn still_objects(m: State) -> bool {
    m.checks_enabled && forall|k: int| !#[trigger] is_reached(m.actions, k)
}

/// Checking is over in a script if an end of checking has been reached.
pub(crate) proof fn over_if_reached(actions: Seq<ActionView>)
    ensures
        script::checking_is_over(actions) == (exists|k: int| #[trigger] is_reached(actions, k)),
    decreases actions.len(),
{
    if actions.len() > 0 {
        let rest = actions.skip(1);
        over_if_reached(rest);
        if script::checking_is_over(actions) {
            if actions[0] is StopChecking {
                assert(is_reached(actions, 0));
            } else {
                let k = choose|k: int| #[trigger] is_reached(rest, k);
                assert forall|i: int| 0 <= i < k + 1 implies advancing::is_done(
                    #[trigger] actions[i],
                ) by {
                    if i > 0 {
                        assert(actions[i] == rest[i - 1]);
                    }
                }
                assert(rest[k] == actions[k + 1]);
                assert(is_reached(actions, k + 1));
            }
        }
        if exists|k: int| #[trigger] is_reached(actions, k) {
            let k = choose|k: int| #[trigger] is_reached(actions, k);
            if k > 0 {
                assert(advancing::is_done(actions[0]));
                assert forall|i: int| 0 <= i < k - 1 implies advancing::is_done(
                    #[trigger] rest[i],
                ) by {
                    assert(rest[i] == actions[i + 1]);
                }
                assert(rest[k - 1] == actions[k]);
                assert(is_reached(rest, k - 1));
            }
        }
    }
}

/// A script is complete if none of its actions should not be left over.
proof fn complete_without_left_over(actions: Seq<ActionView>)
    ensures
        is_complete(actions) == (forall|i: int|
            0 <= i < actions.len() ==> script::left_over(#[trigger] actions[i]) is None),
    decreases actions.len(),
{
    if actions.len() > 0 {
        let rest = actions.skip(1);
        let a = actions[0];
        complete_without_left_over(rest);
        assert forall|i: int| 0 <= i < rest.len() implies #[trigger] rest[i] == actions[i + 1] by {
        }
        assert(script::left_over(a) is None == (streams::bytes_to_read(a).len() == 0
            && streams::wanted(a).len() == 0 && a != ActionView::ReadEof(false)));
        if is_complete(actions) {
            assert(is_complete(rest));
            assert forall|i: int| 0 <= i < actions.len() implies script::left_over(
                #[trigger] actions[i],
            ) is None by {
                if i > 0 {
                    assert(script::left_over(rest[i - 1]) is None);
                }
            }
        }
        if forall|i: int|
            0 <= i < actions.len() ==> script::left_over(#[trigger] actions[i]) is None {
            assert(is_complete(rest));
            assert forall|i: int| 0 <= i < actions.len() implies #[trigger] actions[i]
                != ActionView::ReadEof(false) by {
                if i > 0 {
                    assert(rest[i - 1] != ActionView::ReadEof(false));
                }
            }
        }
    }
}

proof fn last_left_over_is_one(actions: Seq<ActionView>)
    ensures
        script::last_left_over(actions) is None == (forall|i: int|
            0 <= i < actions.len() ==> script::left_over(#[trigger] actions[i]) is None),
        script::last_left_over(actions) matches Some(error) ==> error
            == MockOutcomeError::RemainingUnreadData || error
            == MockOutcomeError::RemainingUnwrittenData,
    decreases actions.len(),
{
    if actions.len() > 0 {
        let rest = actions.drop_last();
        last_left_over_is_one(rest);
        assert forall|i: int| 0 <= i < rest.len() implies #[trigger] rest[i] == actions[i] by {}
        assert(actions.last() == actions[actions.len() - 1]);
        if script::last_left_over(actions) is None {
            assert forall|i: int| 0 <= i < actions.len() implies script::left_over(
                #[trigger] actions[i],
            ) is None by {
                if i < rest.len() {
                    assert(script::left_over(rest[i]) is None);
                }
            }
        }
    }
}

proof fn first_left_over_is_one(actions: Seq<ActionView>, from: nat)
    ensures
        match script::first_left_over(actions, from) {
            None => forall|i: int|
                from <= i < actions.len() ==> script::left_over(#[trigger] actions[i]) is None,
            Some(k) => from <= k < actions.len() && script::left_over(actions[k as int]) is Some,
        },
    decreases actions.len() - from,
{
    if from < actions.len() {
        first_left_over_is_one(actions, from + 1);
    }
}

/// What is wrong with an action that is left over: there is something to be read, or to be
/// written.
pub open spec fn complaint(a: ActionView) -> Option<MockOutcomeError> {
    if streams::bytes_to_read(a).len() > 0 || a == ActionView::ReadEof(false) {
        Some(MockOutcomeError::RemainingUnreadData)
    } else if streams::wanted(a).len() > 0 {
        Some(MockOutcomeError::RemainingUnwrittenData)
    } else {
        None
    }
}

/// What the end objects to is what is complained of.
pub(crate) proof fn left_over_is_complained_of(a: ActionView)
    ensures
        script::left_over(a) == complaint(a),
{
}

/// Whether the action at place `k` is the last one that is complained of, and `error` is the
/// complaint.
pub open spec fn is_last_complaint(
    actions: Seq<ActionView>,
    k: int,
    error: MockOutcomeError,
) -> bool {
    &&& 0 <= k < actions.len()
    &&& complaint(actions[k]) == Some(error)
    &&& forall|i: int| k < i < actions.len() ==> complaint(#[trigger] actions[i]) is None
}

proof fn last_left_over_is_last(actions: Seq<ActionView>) -> (k: int)
    ensures
        match script::last_left_over(actions) {
            Some(error) => is_last_complaint(actions, k, error),
            None => forall|i: int|
                0 <= i < actions.len() ==> complaint(#[trigger] actions[i]) is None,
        },
    decreases actions.len(),
{
    if actions.len() == 0 {
        0
    } else {
        let rest = actions.drop_last();
        let last = actions.len() - 1;
        left_over_is_complained_of(actions.last());
        assert(actions[last] == actions.last());
        let k = last_left_over_is_last(rest);
        assert forall|i: int| 0 <= i < last implies #[trigger] actions[i] == rest[i] by {}
        if script::left_over(actions.last()) is Some {
            last
        } else {
            k
        }
    }
}

/// A mock that objects, and whose departures are not reported, may end if and only if its script
/// is complete.
pub proof fn end_needs_completeness(m: State)
    requires
        still_objects(m),
        !m.armed,
    ensures
        script::finish(m, false).0 == m,
        script::finish(m, false).1 is Ok == is_complete(m.actions),
{
    over_if_reached(m.actions);
    complete_without_left_over(m.actions);
    first_left_over_is_one(m.actions, 0);
}

/// The end of a mock whose report is still to be made makes it: the report is a success if and
/// only if the script is complete or checking has ended; else it tells what is wrong with the
/// last action that is left over. It tells how many bytes were read and written. Nothing panics,
/// and nothing else changes, but that nothing more is objected to.
pub proof fn end_makes_the_report(m: State, panicking: bool) -> (k: int)
    requires
        m.armed,
    ensures
        ({
            let (m1, result) = script::finish(m, panicking);
            &&& result is Ok
            &&& m1 == (State { checks_enabled: false, armed: false, report: m1.report, ..m })
            &&& m1.report matches Some(report)
            &&& report.total_read_bytes == m.read_bytes as u64
            &&& report.total_written_bytes == m.written_bytes as u64
            &&& report.outcome is Ok == (is_complete(m.actions) || !still_objects(m))
            &&& report.outcome matches Err(error) ==> is_last_complaint(m.actions, k, error)
        }),
{
    over_if_reached(m.actions);
    complete_without_left_over(m.actions);
    last_left_over_is_one(m.actions);
    last_left_over_is_last(m.actions)
}

/// A mock without a report to be made ends as it is, and nothing is objected to, if checking has
/// ended, or if a panic is already under way.
pub proof fn end_keeps_the_report(m: State, panicking: bool)
    requires
        !m.armed,
        !still_objects(m) || panicking,
    ensures
        script::finish(m, panicking) == (m, Ok::<(), script::FailureView>(())),
{
    over_if_reached(m.actions);
}

/// What is left before the end of checking is still objected to: a mock that checks, and in whose
/// script something that has anything left to do stands before every end of checking, may end if
/// and only if all bytes are read and written and all ends of file seen.
pub proof fn unreached_end_of_checking_does_not_count(m: State, panicking: bool)
    requires
        m.checks_enabled,
        forall|k: int|
            0 <= k < m.actions.len() && #[trigger] m.actions[k] is StopChecking ==> exists|i: int|
                0 <= i < k && !advancing::is_done(#[trigger] m.actions[i]),
    ensures
        ({
            let (m1, result) = script::finish(m, panicking);
            if m.armed {
                m1.report matches Some(report) && report.outcome is Ok == is_complete(m.actions)
            } else {
                result is Ok == (panicking || is_complete(m.actions))
            }
        }),
{
    assert(still_objects(m));
    if m.armed {
        end_makes_the_report(m, panicking);
    } else if panicking {
        end_keeps_the_report(m, panicking);
    } else {
        end_needs_completeness(m);
    }
}

/// A run after which everything was read, everything was written and every end of file was seen
/// may end, however it went about it.
pub proof fn exhausted_run_may_end(m: State, run: Seq<Operation>)
    requires
        forall|i: int| 0 <= i < run.len() ==> (#[trigger] run[i]).fits(),
        ({
            let (m1, data) = streams::after_all(m, run);
            let script = m.actions + streams::added(run);
            &&& data.len() == streams::read_stream(script).len()
            &&& m1.written_bytes - m.written_bytes == streams::write_stream(script).len()
            &&& forall|i: int|
                0 <= i < m1.actions.len() ==> #[trigger] m1.actions[i] != ActionView::ReadEof(
                    false,
                )
        }),
    ensures
        script::finish(streams::after_all(m, run).0, false).1 is Ok,
{
    let m1 = streams::after_all(m, run).0;
    streams::run_gives_the_script(m, run);
    streams::run_takes_the_script(m, run);
    assert(is_complete(m1.actions));
    if !m1.armed {
        if still_objects(m1) {
            end_needs_completeness(m1);
        } else {
            end_keeps_the_report(m1, false);
        }
    }
}

/// The end of checking is reached once nothing before it has anything left to do, be it read or
/// written: then the mock may end, whatever lies behind it.
pub proof fn reached_end_of_checking_allows_the_end(m: State, k: nat, panicking: bool)
    requires
        k < m.actions.len(),
        m.actions[k as int] is StopChecking,
        forall|i: int| 0 <= i < k ==> advancing::is_done(#[trigger] m.actions[i]),
    ensures
        ({
            let (m1, result) = script::finish(m, panicking);
            &&& result is Ok
            &&& m.armed ==> (m1.report matches Some(report) && report.outcome is Ok)
        }),
{
    reached_end_of_checking(m.actions, k);
}

proof fn reached_end_of_checking(actions: Seq<ActionView>, k: nat)
    requires
        k < actions.len(),
        actions[k as int] is StopChecking,
        forall|i: int| 0 <= i < k ==> advancing::is_done(#[trigger] actions[i]),
    ensures
        script::checking_is_over(actions),
{
    assert(is_reached(actions, k as int));
    over_if_reached(actions);
}

} // verus!
