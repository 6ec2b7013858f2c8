//! What a write leaves.

use crate::action::ActionView;
use crate::error::{ErrorKind, IoError};
use crate::laws::advancing;
use crate::laws::conformance;
use crate::laws::reads;
use crate::laws::shutdowns;
use crate::laws::streams;
use crate::outcome::{MockOutcome, MockOutcomeError};
use crate::script::{self, EventView, IncomingView, RefusalView, State, StepView};
use vstd::prelude::*;

verus! {

/// Whether `b` is what is left of `a` when some of the bytes that it expects were written.
pub open spec fn is_rest_of(b: ActionView, a: ActionView) -> bool {
    match a {
        ActionView::Write(data) => b matches ActionView::Write(rest) && rest.len() <= data.len()
            && rest == data.skip(data.len() - rest.len()),
        ActionView::WriteZeroes(n) => b matches ActionView::WriteZeroes(rest) && rest <= n,
        ActionView::IgnoreWritten(n) => b matches ActionView::IgnoreWritten(rest) && rest <= n,
        _ => b == a,
    }
}

/// What a write that took its bytes from the actions from place `from` on leaves of the rest: an
/// action is taken from only if those before it are done with; one that expects no bytes stays,
/// but that a write that is refused marks the shutdown that it came instead of.
pub open spec fn leaves_the_rest(m: State, w: State, from: int, refused: bool) -> bool {
    &&& w.actions.len() == m.actions.len()
    &&& forall|i: int| 0 <= i < from ==> #[trigger] w.actions[i] == m.actions[i]
    &&& forall|i: int|
        from <= i < m.actions.len() ==> (is_rest_of(#[trigger] w.actions[i], m.actions[i]) || (
        refused && m.actions[i] is WriteShutdown && w.actions[i] == ActionView::WriteShutdown(true)
            && forall|j: int| from <= j < i ==> !(#[trigger] m.actions[j] is WriteShutdown)))
    &&& forall|i: int, j: int|
        #![trigger w.actions[i], w.actions[j]]
        from <= i < j < m.actions.len() && w.actions[j] != m.actions[j] ==> streams::wanted(
            w.actions[i],
        ).len() == 0
    &&& refused ==> exists|i: int|
        from <= i < m.actions.len() && #[trigger] m.actions[i] is WriteShutdown && w.actions[i]
            == ActionView::WriteShutdown(true)
    &&& w == (State {
        actions: w.actions,
        written_bytes: w.written_bytes,
        checks_enabled: w.checks_enabled,
        armed: w.armed,
        report: w.report,
        ..m
    })
}

/// Leaving the rest behind an action that expects no more bytes is leaving the rest.
proof fn leaves_the_rest_before(m: State, m2: State, w: State, i: int, refused: bool)
    requires
        0 <= i < m.actions.len(),
        m2.actions.len() == m.actions.len(),
        forall|j: int| 0 <= j < m.actions.len() && j != i ==> #[trigger] m2.actions[j]
            == m.actions[j],
        is_rest_of(m2.actions[i], m.actions[i]),
        streams::wanted(m2.actions[i]).len() == 0,
        !(m.actions[i] is WriteShutdown),
        m2 == (State {
            actions: m2.actions,
            written_bytes: m2.written_bytes,
            checks_enabled: m2.checks_enabled,
            armed: m2.armed,
            report: m2.report,
            ..m
        }),
        leaves_the_rest(m2, w, i + 1, refused),
    ensures
        leaves_the_rest(m, w, i, refused),
{
    assert(w.actions[i] == m2.actions[i]);
    assert forall|k: int| i <= k < m.actions.len() implies (is_rest_of(
        #[trigger] w.actions[k],
        m.actions[k],
    ) || (refused && m.actions[k] is WriteShutdown && w.actions[k] == ActionView::WriteShutdown(
        true,
    ) && forall|j: int| i <= j < k ==> !(#[trigger] m.actions[j] is WriteShutdown))) by {
        if k > i {
            assert(m2.actions[k] == m.actions[k]);
            if !is_rest_of(w.actions[k], m.actions[k]) {
                assert forall|j: int| i <= j < k implies !(
                #[trigger] m.actions[j] is WriteShutdown) by {
                    if j > i {
                        assert(m2.actions[j] == m.actions[j]);
                    }
                }
            }
        }
    }
    assert forall|p: int, q: int|
        #![trigger w.actions[p], w.actions[q]]
        i <= p < q < m.actions.len() && w.actions[q] != m.actions[q] implies streams::wanted(
        w.actions[p],
    ).len() == 0 by {
        assert(m2.actions[q] == m.actions[q]);
        if p > i {
            assert(w.actions[q] != m2.actions[q]);
        }
    }
    assert forall|j: int| 0 <= j < i implies #[trigger] w.actions[j] == m.actions[j] by {
        assert(m2.actions[j] == m.actions[j]);
    }
    if refused {
        let j = choose|j: int|
            i + 1 <= j < m.actions.len() && #[trigger] m2.actions[j] is WriteShutdown
                && w.actions[j] == ActionView::WriteShutdown(true);
        assert(m.actions[j] is WriteShutdown);
    }
}

proof fn scan_leaves_the_rest(m: State, i: nat, src: Seq<u8>, checking: bool)
    requires
        i <= m.actions.len(),
    ensures
        ({
            let (w, result) = script::scan_write(m, i, src, checking);
            let refused = result matches Err(RefusalView::Io(_));
            leaves_the_rest(m, w, i as int, refused)
        }),
    decreases m.actions.len() - i,
{
    let (w, result) = script::scan_write(m, i, src, checking);
    let refused = result matches Err(RefusalView::Io(_));
    if i < m.actions.len() {
        let a = m.actions[i as int];
        assert(is_rest_of(a, a)) by {
            if let ActionView::Write(data) = a {
                assert(data.skip(0) =~= data);
            }
        }
        assert forall|j: int| 0 <= j < m.actions.len() implies is_rest_of(
            #[trigger] m.actions[j],
            m.actions[j],
        ) by {
            if let ActionView::Write(data) = m.actions[j] {
                assert(data.skip(0) =~= data);
            }
        }
        if script::takes_bytes(a) {
            let n = script::min(src.len(), script::capacity(a));
            if let Ok((m2, still)) = script::give(m, i as int, src, n, checking) {
                let b = m2.actions[i as int];
                assert(is_rest_of(b, a)) by {
                    if let ActionView::Write(data) = a {
                        assert(data.skip(n as int).len() == data.len() - n);
                    }
                }
                if n < src.len() {
                    scan_leaves_the_rest(m2, i + 1, src.skip(n as int), still);
                    leaves_the_rest_before(m, m2, w, i as int, refused);
                }
            }
        } else if a is WriteShutdown {
            if refused {
                assert(w.actions[i as int] == ActionView::WriteShutdown(true));
            }
        } else if !(a is Wait || a is WriteError) {
            scan_leaves_the_rest(m, i + 1, src, checking && !(a is StopChecking));
            leaves_the_rest_before(m, m, w, i as int, refused);
        }
    } else {
        assert forall|j: int| 0 <= j < m.actions.len() implies is_rest_of(
            #[trigger] m.actions[j],
            m.actions[j],
        ) by {
            if let ActionView::Write(data) = m.actions[j] {
                assert(data.skip(0) =~= data);
            }
        }
    }
}

/// Whether a write finds bytes or a shutdown to deal with: the script neither waits nor has an
/// error for it.
pub open spec fn finds_the_script(m: State) -> bool {
    m.actions.len() > 0 ==> !(m.actions[0] is Wait || m.actions[0] is WriteError)
}

/// Whatever a write comes to, it takes its bytes in the order of the script, and leaves all else
/// in the script and in the mock alone: what is for the reader, waits, errors and ends of
/// checking, the name, the bytes read and the wait that has begun.
pub proof fn write_leaves_the_rest(m: State, src: Seq<u8>, now: nat)
    requires
        m.actions.len() > 0,
        finds_the_script(script::advance(m, now)),
    ensures
        ({
            let (w, result) = script::write(m, src, now);
            let refused = result matches Err(RefusalView::Io(_));
            leaves_the_rest(script::advance(m, now), w, 0, refused)
        }),
{
    let m1 = script::advance(m, now);
    scan_leaves_the_rest(m1, 0, src, m1.checks_enabled);
}

/// What comes of a write is what is answered, and the script moves on: the number of bytes taken, if
/// any were; an error, unless it says that the write would block; and a panic, which leaves the
/// mock as it is.
pub proof fn write_is_answered(m: State, src: Seq<u8>, now: nat)
    ensures
        ({
            let (w, result) = script::write(m, src, now);
            let m2 = script::advance(w, now);
            match result {
                Ok(n) => n > 0 ==> script::poll_write(m, src, now) == (
                    m2,
                    conformance::woken(Ok::<usize, IoError>(n as usize), m2),
                ),
                Err(RefusalView::Io(error)) => !(error.kind is WouldBlock) ==> script::poll_write(
                    m,
                    src,
                    now,
                ) == (m2, conformance::woken(Err::<usize, IoError>(error), m2)),
                Err(RefusalView::Failure(failure)) => script::poll_write(m, src, now) == (
                    w,
                    StepView::<usize>::Panic(failure),
                ),
            }
        }),
{
}

/// A write that takes nothing is to look at the channel at the end of the script, and where data
/// is written for which there is no place, now or later, while departures are objected to; else it
/// waits.
pub proof fn write_that_takes_nothing(m: State, src: Seq<u8>, now: nat)
    requires
        script::write(m, src, now).1 == Ok::<nat, RefusalView>(0),
    ensures
        ({
            let m2 = script::advance(script::write(m, src, now).0, now);
            script::poll_write(m, src, now) == (
                m2,
                if m2.actions.len() == 0 || (has_no_place(m2.actions) && m2.checks_enabled
                    && src.len() > 0) {
                    StepView::<usize>::Poll
                } else {
                    StepView::<usize>::Pending
                },
            )
        }),
{
    let m2 = script::advance(script::write(m, src, now).0, now);
    no_place_is_no_place(m2);
}

/// Whether a script has only what is for the reader, and writes that are done.
pub open spec fn has_no_place(actions: Seq<ActionView>) -> bool {
    forall|i: int|
        0 <= i < actions.len() ==> (#[trigger] actions[i] is Read || actions[i] is ReadZeroes
            || actions[i] is ReadEof || actions[i] is ReadError || ((actions[i] is Write
            || actions[i] is WriteZeroes || actions[i] is IgnoreWritten) && streams::wanted(
            actions[i],
        ).len() == 0))
}

proof fn no_place_is_no_place(m: State)
    ensures
        m.has_no_place_for_a_write() == has_no_place(m.actions),
{
    if m.has_no_place_for_a_write() {
        assert forall|i: int| 0 <= i < m.actions.len() implies (#[trigger] m.actions[i] is Read
            || m.actions[i] is ReadZeroes || m.actions[i] is ReadEof || m.actions[i] is ReadError
            || ((m.actions[i] is Write || m.actions[i] is WriteZeroes
            || m.actions[i] is IgnoreWritten) && streams::wanted(m.actions[i]).len() == 0)) by {
            assert(!script::is_for_writer(m.actions[i]));
        }
    }
    if has_no_place(m.actions) {
        assert forall|i: int| 0 <= i < m.actions.len() implies !script::is_for_writer(
            #[trigger] m.actions[i],
        ) by {}
    }
}

/// A write that comes during a wait is to sleep; one that comes to an error in the script gets it,
/// once. An error that says that the write would block is none to be handed out: the write is to
/// sleep if a wait comes next, and else it is objected to.
pub proof fn write_is_held_up(m: State, src: Seq<u8>, now: nat)
    requires
        m.actions.len() > 0,
        !finds_the_script(script::advance(m, now)),
        script::advance(m, now).actions.len() > 0,
    ensures
        ({
            let m1 = script::advance(m, now);
            let (m2, step) = script::poll_write(m, src, now);
            match m1.actions[0] {
                ActionView::Wait(span) => m2 == m1 && step == StepView::<usize>::Sleep(span),
                ActionView::WriteError(Some(error)) => {
                    let w = reads::with_action(m1, 0, ActionView::WriteError(None));
                    let m3 = script::advance(w, now);
                    if error.kind is WouldBlock {
                        is_blocked::<usize>(m3, m2, step)
                    } else {
                        m2 == m3 && step == conformance::woken(Err::<usize, IoError>(error), m3)
                    }
                },
                _ => false,
            }
        }),
{
    advancing::advance_keeps(m, now);
    advancing::advance_is_idempotent(m, now);
    let m1 = script::advance(m, now);
    let w = reads::with_action(m1, 0, ActionView::WriteError(None));
    advancing::advance_keeps(w, now);
    advancing::advance_is_idempotent(w, now);
}

/// What comes of an operation of the writer that would block: it is to sleep if the script waits;
/// else it is objected to if departures are, and it fails.
pub open spec fn is_blocked<V>(m: State, m1: State, step: StepView<V>) -> bool {
    if m.actions.len() > 0 && m.actions[0] is Wait {
        m1 == m && step == StepView::<V>::Sleep(m.actions[0]->Wait_0)
    } else {
        is_objected_to(m, m1, step, MockOutcomeError::Other)
    }
}

/// What it is to object to an operation that the script has no place for: a report and an error,
/// or a panic if there is no report to be made; only the error if nothing is objected to.
pub open spec fn is_objected_to<V>(
    m: State,
    m1: State,
    step: StepView<V>,
    error: MockOutcomeError,
) -> bool {
    if m.checks_enabled && !m.armed {
        m1 == m && step is Panic
    } else {
        &&& m1 == if m.checks_enabled {
            reads::after_report(m, error)
        } else {
            m
        }
        &&& step == reads::answer(Err::<V, IoError>(reads::bare(ErrorKind::BrokenPipe)))
    }
}

/// What the writer makes of the channel. With an empty script it begins with a look, and then
/// writes unless no more actions come; then, as after a later look, the write is unexpected. What
/// has come, whatever it is, stands at the end of the script.
pub proof fn write_takes_what_comes(m: State, incoming: IncomingView, src: Seq<u8>, now: nat)
    ensures
        script::write_turn(m, EventView::Begin, src, now) == if m.actions.len() == 0 {
            (m, StepView::<usize>::Open)
        } else {
            script::poll_write(m, src, now)
        },
        ({
            let pushed = |a: ActionView| State { actions: m.actions.push(a), ..m };
            let (m1, step) = script::write_turn(m, EventView::Opening(incoming), src, now);
            let (m2, later) = script::write_turn(m, EventView::Incoming(incoming), src, now);
            match incoming {
                IncomingView::Pending => {
                    &&& (m1, step) == script::poll_write(m, src, now)
                    &&& m2 == m && later is Pending
                },
                IncomingView::Closed => {
                    &&& is_objected_to::<usize>(m, m1, step, MockOutcomeError::UnexpectedWrite)
                    &&& is_objected_to::<usize>(m, m2, later, MockOutcomeError::UnexpectedWrite)
                },
                IncomingView::Action(a) => {
                    &&& (m1, step) == script::poll_write(pushed(a), src, now)
                    &&& m2 == pushed(a) && later is Proceed
                },
            }
        }),
{
    let m1 = script::write_opening(m, incoming).0;
    poll_write_does_not_begin_again(m1, src, now);
}

/// A write never asks to begin again.
proof fn poll_write_does_not_begin_again(m: State, src: Seq<u8>, now: nat)
    ensures
        !(script::poll_write(m, src, now).1 is Proceed),
{
}

/// A write into an empty script fails.
pub proof fn write_into_nothing(m: State, src: Seq<u8>, now: nat)
    requires
        m.actions.len() == 0,
    ensures
        script::poll_write(m, src, now) == (
            m,
            conformance::woken(Err::<usize, IoError>(reads::bare(ErrorKind::BrokenPipe)), m),
        ),
{
}

/// A round of a writer is a turn, and the looks at the channel that it asks for.
pub proof fn write_round_makes_its_looks(
    m: State,
    opening: IncomingView,
    later: IncomingView,
    src: Seq<u8>,
    now: nat,
)
    ensures
        ({
            let (m1, first) = script::write_turn(m, EventView::Begin, src, now);
            let (m2, second) = if first is Open {
                script::write_turn(m1, EventView::Opening(opening), src, now)
            } else {
                (m1, first)
            };
            let (m3, step, looks) = script::write_round(m, opening, later, src, now);
            &&& first is Open ==> looks.len() > 0 && looks[0] == opening
            &&& second is Poll ==> looks.len() > 0 && looks.last() == later
            &&& looks.len() == (if first is Open { 1nat } else { 0 }) + (if second is Poll {
                1nat
            } else {
                0
            })
            &&& (m3, step) == if second is Poll {
                script::write_turn(m2, EventView::Incoming(later), src, now)
            } else {
                (m2, second)
            }
        }),
{
}

/// Whether a script has nothing but bytes to be written.
pub open spec fn is_all_writes(actions: Seq<ActionView>) -> bool {
    forall|i: int|
        0 <= i < actions.len() ==> (#[trigger] actions[i] is Write || actions[i] is WriteZeroes
            || actions[i] is IgnoreWritten)
}

/// What a script of writes expects now is all that it expects.
proof fn writes_expect_all(actions: Seq<ActionView>)
    requires
        is_all_writes(actions),
    ensures
        conformance::expectation(actions, true) == streams::write_stream(actions),
        conformance::shutdown_behind(actions, true) is None,
    decreases actions.len(),
{
    if actions.len() > 0 {
        let rest = actions.skip(1);
        assert(actions[0] is Write || actions[0] is WriteZeroes || actions[0] is IgnoreWritten);
        assert forall|i: int| 0 <= i < rest.len() implies (#[trigger] rest[i] is Write
            || rest[i] is WriteZeroes || rest[i] is IgnoreWritten) by {
            assert(rest[i] == actions[i + 1]);
        }
        writes_expect_all(rest);
    }
}

/// Nothing is left of a script of writes that expects no more.
proof fn no_bytes_no_action(actions: Seq<ActionView>, i: int)
    requires
        streams::write_stream(actions).len() == 0,
        0 <= i < actions.len(),
    ensures
        streams::wanted(actions[i]).len() == 0,
    decreases i,
{
    if i > 0 {
        no_bytes_no_action(actions.skip(1), i - 1);
        assert(actions.skip(1)[i - 1] == actions[i]);
    }
}

/// Written data that goes beyond the script is not let pass: of a script of writes, a write of all
/// its bytes and more takes just those bytes, and what is written then, when no more actions can
/// come, is unexpected: it is reported, or else it is a panic.
pub proof fn write_beyond_the_script(
    m: State,
    src: Seq<u8>,
    extra: Seq<u8>,
    now: nat,
    later: nat,
)
    requires
        is_all_writes(m.actions),
        m.waiting is None,
        m.checks_enabled,
        0 < src.len(),
        src.len() + extra.len() <= usize::MAX,
        src.len() == streams::write_stream(m.actions).len(),
        conformance::conforms(streams::write_stream(m.actions), src, src.len()),
        extra.len() > 0,
    ensures
        ({
            let (m1, first) = script::poll_write(m, src + extra, now);
            let closed = IncomingView::Closed;
            let (m2, second, _) = script::write_round(m1, closed, closed, extra, later);
            &&& first matches StepView::Ready { result: Ok(n), wake_reader: _ }
            &&& n == src.len()
            &&& if m.armed {
                &&& second == reads::answer(
                    Err::<usize, IoError>(reads::bare(ErrorKind::BrokenPipe)),
                )
                &&& m2.report == Some(
                    MockOutcome {
                        outcome: Err(MockOutcomeError::UnexpectedWrite),
                        total_read_bytes: m.read_bytes as u64,
                        total_written_bytes: (m.written_bytes + src.len()) as u64,
                    },
                )
            } else {
                second is Panic
            }
        }),
{
    let all = src + extra;
    let k = advancing::advance_drops_what_is_over(m, now);
    let m1 = script::advance(m, now);
    assert forall|i: int| 0 <= i < m1.actions.len() implies (#[trigger] m1.actions[i] is Write
        || m1.actions[i] is WriteZeroes || m1.actions[i] is IgnoreWritten) by {
        assert(m1.actions[i] == m.actions[i + k]);
    }
    assert forall|i: int| 0 <= i < k implies !(#[trigger] m.actions[i] is StopChecking) by {
        assert(m.actions[i] is Write || m.actions[i] is WriteZeroes
            || m.actions[i] is IgnoreWritten);
    }
    assert(m1.checks_enabled);
    streams::advance_keeps_streams(m, now);
    writes_expect_all(m1.actions);
    let want = streams::write_stream(m.actions);
    assert(conformance::conforms(want, all, src.len())) by {
        assert forall|j: int| 0 <= j < src.len() implies conformance::is_as_wanted(
            #[trigger] want[j],
            all[j],
        ) by {
            assert(all[j] == src[j]);
        }
    }
    conformance::conforming_write_is_taken(m, all, now);
    streams::write_takes_the_script(m, all, now);
    if m.actions.len() == 0 {
        assert(want.len() == 0);
    }
    if m1.actions.len() > 0 {
        assert(m1.actions[0] is Write || m1.actions[0] is WriteZeroes
            || m1.actions[0] is IgnoreWritten);
    }
    write_leaves_the_rest(m, all, now);
    let w = script::write(m, all, now).0;
    let m2 = script::advance(w, now);
    assert(streams::write_stream(w.actions).len() == 0);
    let j = advancing::advance_drops_what_is_over(w, now);
    if j < w.actions.len() {
        no_bytes_no_action(w.actions, j);
        assert(is_rest_of(w.actions[j], m1.actions[j]));
        assert(m1.actions[j] is Write || m1.actions[j] is WriteZeroes
            || m1.actions[j] is IgnoreWritten);
        if let ActionView::Write(rest) = w.actions[j] {
            assert(rest.len() == streams::wanted(w.actions[j]).len());
            assert(rest =~= Seq::empty());
        }
    }
    assert(m2.actions.len() == 0);
    assert forall|i: int| 0 <= i < j implies !(#[trigger] w.actions[i] is StopChecking) by {
        assert(is_rest_of(w.actions[i], m1.actions[i]));
        assert(m1.actions[i] is Write || m1.actions[i] is WriteZeroes
            || m1.actions[i] is IgnoreWritten);
    }
    assert(m2.checks_enabled);
}

/// Whether a write of `src` looks past an action: it is for the reader, or is the end of checking,
/// or takes no more bytes and there are bytes to be written.
pub open spec fn is_looked_past(a: ActionView, src: Seq<u8>) -> bool {
    ||| shutdowns::is_for_reader(a)
    ||| a is StopChecking
    ||| (a is Write || a is WriteZeroes || a is IgnoreWritten) && streams::wanted(a).len() == 0
        && src.len() > 0
}

/// A write looks past what has nothing to do with it.
pub(crate) proof fn write_looks_past(m: State, i: nat, j: nat, src: Seq<u8>, checking: bool)
    requires
        i <= j <= m.actions.len(),
        forall|k: int| i <= k < j ==> is_looked_past(#[trigger] m.actions[k], src),
    ensures
        script::scan_write(m, i, src, checking) == script::scan_write(
            m,
            j,
            src,
            shutdowns::still_checks(m, i as int, j as int, checking),
        ),
    decreases j - i,
{
    if i < j {
        let a = m.actions[i as int];
        let then = checking && !(a is StopChecking);
        assert(is_looked_past(a, src));
        write_looks_past(m, i + 1, j, src, then);
        assert(script::consumed(a, 0) == a) by {
            if let ActionView::Write(data) = a {
                assert(data.skip(0) =~= data);
            }
        }
        assert(m.actions.update(i as int, a) =~= m.actions);
        assert(src.skip(0) =~= src);
        if shutdowns::still_checks(m, i as int + 1, j as int, then) {
            assert forall|n: int| i <= n < j implies !(
            #[trigger] m.actions[n] is StopChecking) by {
                if n == i {
                    assert(!(a is StopChecking));
                }
            }
        }
    }
}

/// A write that meets no bytes to be written: behind what it looks past, at place `j`, comes
/// the end of the script, a wait, an error or a shutdown, or nothing is to be written. It takes
/// nothing and leaves the mock as it is; at a shutdown it is refused, and objected to if
/// departures are.
pub proof fn write_meets_no_bytes(m: State, src: Seq<u8>, now: nat, j: nat)
    requires
        m.actions.len() > 0,
        ({
            let m1 = script::advance(m, now);
            &&& finds_the_script(m1)
            &&& j <= m1.actions.len()
            &&& forall|k: int| 0 <= k < j ==> is_looked_past(#[trigger] m1.actions[k], src)
            &&& j < m1.actions.len() ==> {
                let a = m1.actions[j as int];
                a is Wait || a is WriteError || a is WriteShutdown || (src.len() == 0 && (
                a is Write || a is WriteZeroes || a is IgnoreWritten))
            }
        }),
    ensures
        ({
            let m1 = script::advance(m, now);
            let (w, result) = script::write(m, src, now);
            let checks = shutdowns::still_checks(m1, 0, j as int, m1.checks_enabled);
            if j < m1.actions.len() && m1.actions[j as int] is WriteShutdown {
                if checks && !m1.armed {
                    w == m1 && (result matches Err(RefusalView::Failure(_)))
                } else {
                    &&& w == reads::with_action(
                        if checks {
                            reads::after_report(m1, MockOutcomeError::WriteInsteadOfShutdown)
                        } else {
                            m1
                        },
                        j as int,
                        ActionView::WriteShutdown(true),
                    )
                    &&& result == Err::<nat, RefusalView>(
                        RefusalView::Io(reads::bare(ErrorKind::InvalidData)),
                    )
                }
            } else {
                w == m1 && result == Ok::<nat, RefusalView>(0)
            }
        }),
{
    let m1 = script::advance(m, now);
    write_looks_past(m1, 0, j, src, m1.checks_enabled);
    if j < m1.actions.len() {
        let a = m1.actions[j as int];
        assert(script::consumed(a, 0) == a) by {
            if let ActionView::Write(data) = a {
                assert(data.skip(0) =~= data);
            }
        }
        assert(m1.actions.update(j as int, a) =~= m1.actions);
    }
}

} // verus!
