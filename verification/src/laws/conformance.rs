//! Which writes the script accepts.

use crate::action::ActionView;
use crate::error::{ErrorKind, IoError};
use crate::laws::advancing;
use crate::laws::objections;
use crate::laws::reads;
use crate::laws::streams;
use crate::outcome::{MockOutcome, MockOutcomeError};
use crate::script::{self, FailureView, RefusalView, State, StepView};
use vstd::prelude::*;

verus! {

/// What the script expects of each byte of a write that comes now: it takes bytes up to a wait,
/// an error or a shutdown, and behind the end of checking any byte will do.
pub open spec fn expectation(actions: Seq<ActionView>, checking: bool) -> Seq<Option<u8>>
    decreases actions.len(),
{
    if actions.len() == 0 {
        Seq::empty()
    } else {
        let a = actions[0];
        let rest = actions.skip(1);
        if a is Write || a is WriteZeroes || a is IgnoreWritten {
            let here = if checking {
                streams::wanted(a)
            } else {
                Seq::new(streams::wanted(a).len(), |k: int| None)
            };
            here + expectation(rest, checking)
        } else if a is WriteShutdown || a is Wait || a is WriteError {
            Seq::empty()
        } else {
            expectation(rest, checking && !(a is StopChecking))
        }
    }
}

/// Whether a shutdown stands behind the bytes that the script takes now; if so, whether a write
/// that comes instead is objected to.
pub open spec fn shutdown_behind(actions: Seq<ActionView>, checking: bool) -> Option<bool>
    decreases actions.len(),
{
    if actions.len() == 0 || actions[0] is Wait || actions[0] is WriteError {
        None
    } else if actions[0] is WriteShutdown {
        Some(checking)
    } else {
        shutdown_behind(actions.skip(1), checking && !(actions[0] is StopChecking))
    }
}

/// Whether a byte is the one that is expected, where one is.
pub open spec fn is_as_wanted(want: Option<u8>, got: u8) -> bool {
    want is None || want == Some(got)
}

/// Whether the first `n` bytes are as expected.
pub open spec fn conforms(want: Seq<Option<u8>>, src: Seq<u8>, n: nat) -> bool {
    forall|k: int| 0 <= k < n ==> is_as_wanted(#[trigger] want[k], src[k])
}

/// Whether `k` is the first place at which `src` is not as expected.
pub open spec fn departs_at(want: Seq<Option<u8>>, src: Seq<u8>, k: nat) -> bool {
    &&& k < src.len()
    &&& k < want.len()
    &&& conforms(want, src, k)
    &&& !is_as_wanted(want[k as int], src[k as int])
}

/// There is no mismatch among bytes that are as expected.
proof fn no_mismatch(a: ActionView, src: Seq<u8>, from: nat, n: nat)
    requires
        forall|k: int|
            0 <= k < n ==> script::fits(script::expected(a, k), #[trigger] src[k]),
    ensures
        script::first_mismatch(a, src, from, n) is None,
    decreases n - from,
{
    if from < n {
        assert(script::fits(script::expected(a, from as int), src[from as int]));
        no_mismatch(a, src, from + 1, n);
    }
}

/// The first byte that is not as expected is the mismatch.
pub(crate) proof fn mismatch_at(a: ActionView, src: Seq<u8>, from: nat, n: nat, k: nat)
    requires
        from <= k < n,
        forall|j: int|
            0 <= j < k ==> script::fits(script::expected(a, j), #[trigger] src[j]),
        !script::fits(script::expected(a, k as int), src[k as int]),
    ensures
        script::first_mismatch(a, src, from, n) == Some(k),
    decreases n - from,
{
    if from < k {
        assert(script::fits(script::expected(a, from as int), src[from as int]));
        mismatch_at(a, src, from + 1, n, k);
    }
}

/// How the expectation of the actions from place `i` on begins.
proof fn expectation_at(actions: Seq<ActionView>, i: nat)
    requires
        i < actions.len(),
    ensures
        actions.skip(i as int)[0] == actions[i as int],
        actions.skip(i as int).skip(1) == actions.skip(i as int + 1),
{
    assert(actions.skip(i as int).skip(1) =~= actions.skip(i as int + 1));
}

/// A write that is as expected is taken as far as the script takes bytes now.
proof fn scan_takes_conforming(m: State, i: nat, src: Seq<u8>, checking: bool)
    requires
        i <= m.actions.len(),
        src.len() > 0,
        checking ==> m.checks_enabled,
        ({
            let want = expectation(m.actions.skip(i as int), checking);
            conforms(want, src, smaller(src.len(), want.len()))
        }),
    ensures
        ({
            let rest = m.actions.skip(i as int);
            let want = expectation(rest, checking);
            let (m1, result) = script::scan_write(m, i, src, checking);
            &&& m1.written_bytes == m.written_bytes + smaller(src.len(), want.len())
            &&& if src.len() <= want.len() || shutdown_behind(rest, checking) is None {
                &&& result == Ok::<nat, RefusalView>(smaller(src.len(), want.len()))
                &&& m1.report == m.report
                &&& m1.armed == m.armed
                &&& m1.checks_enabled == m.checks_enabled
            } else if shutdown_behind(rest, checking) == Some(true) && !m.armed {
                &&& result matches Err(RefusalView::Failure(FailureView::Script { message: _ }))
                &&& m1.report == m.report
                &&& m1.armed == m.armed
                &&& m1.checks_enabled == m.checks_enabled
            } else {
                &&& m1.armed == (m.armed && shutdown_behind(rest, checking) != Some(true))
                &&& m1.checks_enabled == (m.checks_enabled && shutdown_behind(rest, checking)
                    != Some(true))
                &&& result == Err::<nat, RefusalView>(
                    RefusalView::Io(reads::bare(ErrorKind::InvalidData)),
                )
                &&& m1.report == if shutdown_behind(rest, checking) == Some(true) {
                    Some(
                        MockOutcome {
                            outcome: Err(MockOutcomeError::WriteInsteadOfShutdown),
                            total_read_bytes: m.read_bytes as u64,
                            total_written_bytes: (m.written_bytes + want.len()) as u64,
                        },
                    )
                } else {
                    m.report
                }
            }
        }),
    decreases m.actions.len() - i,
{
    let rest = m.actions.skip(i as int);
    let want = expectation(rest, checking);
    if i < m.actions.len() {
        expectation_at(m.actions, i);
        let a = m.actions[i as int];
        let next = m.actions.skip(i as int + 1);
        if script::takes_bytes(a) {
            let n = script::min(src.len(), script::capacity(a));
            let later = expectation(next, checking);
            if checking {
                assert forall|k: int| 0 <= k < n implies script::fits(
                    script::expected(a, k),
                    #[trigger] src[k],
                ) by {
                    assert(want[k] == script::expected(a, k));
                }
                no_mismatch(a, src, 0, n);
            }
            let m2 = script::give(m, i as int, src, n, checking)->Ok_0.0;
            let more = src.skip(n as int);
            if n < src.len() {
                assert(m2.actions.skip(i as int + 1) =~= next);
                assert forall|k: int| 0 <= k < script::min(more.len(), later.len()) implies
                    script::fits(#[trigger] later[k], more[k]) by {
                    assert(want[n + k] == later[k]);
                    assert(script::fits(want[n + k], src[n + k]));
                }
                scan_takes_conforming(m2, i + 1, more, checking);
            }
        } else if !(a is WriteShutdown || a is Wait || a is WriteError) {
            scan_takes_conforming(m, i + 1, src, checking && !(a is StopChecking));
        }
    }
}

/// Without checks the same bytes are taken, and any byte will do.
proof fn unchecked_expectation(actions: Seq<ActionView>)
    ensures
        expectation(actions, false).len() == expectation(actions, true).len(),
        forall|k: int|
            0 <= k < expectation(actions, false).len() ==> (#[trigger] expectation(
                actions,
                false,
            )[k]) is None,
        shutdown_behind(actions, false) is None == shutdown_behind(actions, true) is None,
        shutdown_behind(actions, false) != Some(true),
    decreases actions.len(),
{
    if actions.len() > 0 {
        unchecked_expectation(actions.skip(1));
    }
}

/// The smaller of two numbers.
pub open spec fn smaller(a: nat, b: nat) -> nat {
    if a <= b {
        a
    } else {
        b
    }
}

/// A write that departs from the script is objected to at the first byte that does.
proof fn scan_objects_to_departing(m: State, i: nat, src: Seq<u8>, checking: bool, k: nat)
    requires
        i <= m.actions.len(),
        checking ==> m.checks_enabled,
        departs_at(expectation(m.actions.skip(i as int), checking), src, k),
    ensures
        ({
            let want = expectation(m.actions.skip(i as int), checking);
            let (m1, result) = script::scan_write(m, i, src, checking);
            if m.armed {
                &&& !m1.checks_enabled
                &&& !m1.armed
                &&& m1.written_bytes == m.written_bytes + smaller(src.len(), want.len())
                &&& result == if src.len() <= want.len() || shutdown_behind(
                    m.actions.skip(i as int),
                    checking,
                ) is None {
                    Ok::<nat, RefusalView>(smaller(src.len(), want.len()))
                } else {
                    Err(RefusalView::Io(reads::bare(ErrorKind::InvalidData)))
                }
                &&& m1.report == Some(
                    MockOutcome {
                        outcome: Err(
                            MockOutcomeError::WrittenByteMismatch {
                                expected: want[k as int]->0,
                                actual: src[k as int],
                            },
                        ),
                        total_read_bytes: m.read_bytes as u64,
                        total_written_bytes: (m.written_bytes + k) as u64,
                    },
                )
            } else {
                &&& result matches Err(RefusalView::Failure(failure)) && !(failure is Script)
                &&& m1.report == m.report
                &&& m1.checks_enabled == m.checks_enabled
                &&& !m1.armed
            }
        }),
    decreases m.actions.len() - i,
{
    let want = expectation(m.actions.skip(i as int), checking);
    expectation_at(m.actions, i);
    let a = m.actions[i as int];
    let next = m.actions.skip(i as int + 1);
    if script::takes_bytes(a) {
        let n = script::min(src.len(), script::capacity(a));
        let later = expectation(next, checking);
        if k < n {
            assert(checking);
            assert forall|j: int| 0 <= j < k implies script::fits(
                script::expected(a, j),
                #[trigger] src[j],
            ) by {
                assert(want[j] == script::expected(a, j));
            }
            assert(want[k as int] == script::expected(a, k as int));
            mismatch_at(a, src, 0, n, k);
            if m.armed {
                let m2 = script::give(m, i as int, src, n, checking)->Ok_0.0;
                let more = src.skip(n as int);
                objections::scan_write_is_orderly(m2, i + 1, more, false);
                unchecked_expectation(next);
                assert(m2.actions.skip(i as int + 1) =~= next);
                if n < src.len() {
                    scan_takes_conforming(m2, i + 1, more, false);
                }
            }
        } else {
            if checking {
                assert forall|j: int| 0 <= j < n implies script::fits(
                    script::expected(a, j),
                    #[trigger] src[j],
                ) by {
                    assert(want[j] == script::expected(a, j));
                }
                no_mismatch(a, src, 0, n);
            }
            let m2 = script::give(m, i as int, src, n, checking)->Ok_0.0;
            let more = src.skip(n as int);
            assert(m2.actions.skip(i as int + 1) =~= next);
            assert forall|j: int| 0 <= j < k - n implies script::fits(
                #[trigger] later[j],
                more[j],
            ) by {
                assert(want[n + j] == later[j]);
                assert(script::fits(want[n + j], src[n + j]));
            }
            assert(want[k as int] == later[k - n]);
            scan_objects_to_departing(m2, i + 1, more, checking, (k - n) as nat);
        }
    } else {
        scan_objects_to_departing(m, i + 1, src, checking && !(a is StopChecking), k);
    }
}

/// The answer that hands out a result, and wakes the reader if the script can go on for it, or is
/// at its end.
pub open spec fn woken<V>(result: Result<V, IoError>, m: State) -> StepView<V> {
    StepView::Ready {
        result,
        wake_reader: m.actions.len() == 0 || m.actions[0] is Read || m.actions[0] is ReadZeroes
            || m.actions[0] is ReadEof || m.actions[0] is ReadError,
    }
}

/// A write whose bytes are as expected is taken, as far as the script takes bytes now: nothing
/// is objected to, what is objected to later is the same as before, and the answer is the number
/// of bytes taken. The script then moves on.
pub proof fn conforming_write_is_taken(m: State, src: Seq<u8>, now: nat)
    requires
        0 < src.len() <= usize::MAX,
        ({
            let m1 = script::advance(m, now);
            let want = expectation(m1.actions, m1.checks_enabled);
            &&& want.len() > 0
            &&& conforms(want, src, smaller(src.len(), want.len()))
            &&& src.len() <= want.len() || shutdown_behind(m1.actions, m1.checks_enabled) is None
        }),
    ensures
        ({
            let m1 = script::advance(m, now);
            let want = expectation(m1.actions, m1.checks_enabled);
            let (w, result) = script::write(m, src, now);
            let n = smaller(src.len(), want.len());
            &&& result == Ok::<nat, RefusalView>(n)
            &&& w.report == m.report
            &&& w.armed == m.armed
            &&& w.checks_enabled == m1.checks_enabled
            &&& w.written_bytes == m.written_bytes + n
            &&& script::poll_write(m, src, now) == (
                script::advance(w, now),
                woken(Ok(n as usize), script::advance(w, now)),
            )
        }),
{
    advancing::advance_keeps(m, now);
    let m1 = script::advance(m, now);
    assert(m1.actions.skip(0) =~= m1.actions);
    streams::write_takes_the_script(m, src, now);
    scan_takes_conforming(m1, 0, src, m1.checks_enabled);
    let m2 = script::write(m, src, now).0;
    advancing::advance_keeps(m2, now);
}

/// A write that departs from the script is objected to at the first byte that does. The report
/// tells the byte that was expected and the byte that came, and how many bytes were written
/// before it; a mock without a report panics.
pub proof fn departing_write_is_objected_to(m: State, src: Seq<u8>, now: nat, k: nat)
    requires
        src.len() <= usize::MAX,
        ({
            let m1 = script::advance(m, now);
            departs_at(expectation(m1.actions, m1.checks_enabled), src, k)
        }),
    ensures
        ({
            let m1 = script::advance(m, now);
            let want = expectation(m1.actions, m1.checks_enabled);
            let (w, result) = script::write(m, src, now);
            let (m2, step) = script::poll_write(m, src, now);
            let n = smaller(src.len(), want.len());
            if m.armed {
                &&& !w.checks_enabled
                &&& !w.armed
                &&& w.written_bytes == m.written_bytes + n
                &&& m2 == script::advance(w, now)
                &&& step == if src.len() <= want.len() || shutdown_behind(
                    m1.actions,
                    m1.checks_enabled,
                ) is None {
                    woken(Ok::<usize, IoError>(n as usize), m2)
                } else {
                    woken(Err(reads::bare(ErrorKind::InvalidData)), m2)
                }
                &&& m2.report == Some(
                    MockOutcome {
                        outcome: Err(
                            MockOutcomeError::WrittenByteMismatch {
                                expected: want[k as int]->0,
                                actual: src[k as int],
                            },
                        ),
                        total_read_bytes: m.read_bytes as u64,
                        total_written_bytes: (m.written_bytes + k) as u64,
                    },
                )
            } else {
                &&& step matches StepView::Panic(failure) && !(failure is Script)
                &&& m2 == w
                &&& w.report == m.report
                &&& w.checks_enabled == m1.checks_enabled
            }
        }),
{
    advancing::advance_keeps(m, now);
    let m1 = script::advance(m, now);
    assert(m1.actions.skip(0) =~= m1.actions);
    scan_objects_to_departing(m1, 0, src, m1.checks_enabled, k);
    objections::scan_write_is_orderly(m1, 0, src, m1.checks_enabled);
    let m2 = script::write(m, src, now).0;
    advancing::advance_keeps(m2, now);
}

/// A write that goes on where a shutdown is expected is refused, and objected to unless checking
/// has ended before.
pub proof fn write_instead_of_shutdown_is_refused(m: State, src: Seq<u8>, now: nat)
    requires
        ({
            let m1 = script::advance(m, now);
            let want = expectation(m1.actions, m1.checks_enabled);
            &&& want.len() < src.len() <= usize::MAX
            &&& conforms(want, src, want.len())
            &&& shutdown_behind(m1.actions, m1.checks_enabled) is Some
        }),
    ensures
        ({
            let m1 = script::advance(m, now);
            let want = expectation(m1.actions, m1.checks_enabled);
            let checked = shutdown_behind(m1.actions, m1.checks_enabled)->0;
            let (w, result) = script::write(m, src, now);
            let (m2, step) = script::poll_write(m, src, now);
            &&& w.written_bytes == m.written_bytes + want.len()
            &&& if checked && !m.armed {
                &&& step is Panic
                &&& m2 == w
                &&& w.report == m.report
                &&& w.checks_enabled == m1.checks_enabled
            } else {
                &&& w.armed == (m.armed && !checked)
                &&& w.checks_enabled == (m1.checks_enabled && !checked)
                &&& m2 == script::advance(w, now)
                &&& step == woken(Err::<usize, IoError>(reads::bare(ErrorKind::InvalidData)), m2)
                &&& m2.report == if checked {
                    Some(
                        MockOutcome {
                            outcome: Err(MockOutcomeError::WriteInsteadOfShutdown),
                            total_read_bytes: m.read_bytes as u64,
                            total_written_bytes: (m.written_bytes + want.len()) as u64,
                        },
                    )
                } else {
                    m.report
                }
            }
        }),
{
    advancing::advance_keeps(m, now);
    let m1 = script::advance(m, now);
    assert(m1.actions.skip(0) =~= m1.actions);
    scan_takes_conforming(m1, 0, src, m1.checks_enabled);
    let m2 = script::write(m, src, now).0;
    advancing::advance_keeps(m2, now);
}

} // verus!
