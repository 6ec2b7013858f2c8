//! Moving on in the script.

use crate::action::ActionView;
use crate::script::{self, State};
use vstd::prelude::*;

verus! {

/// Moving on in the script leaves everything but the script, the wait and the checks alone,
/// never enables checks, and leaves a suffix of the script, whose first action is not spent.
pub proof fn advance_keeps(m: State, now: nat)
    ensures
        ({
            let m1 = script::advance(m, now);
            &&& m1.name == m.name
            &&& m1.read_bytes == m.read_bytes
            &&& m1.written_bytes == m.written_bytes
            &&& m1.shutdown_checking_enabled == m.shutdown_checking_enabled
            &&& m1.armed == m.armed
            &&& m1.report == m.report
            &&& m1.reporter == m.reporter
            &&& m1.checks_enabled ==> m.checks_enabled
            &&& m1.actions.len() <= m.actions.len()
            &&& m1.actions =~= m.actions.skip(m.actions.len() - m1.actions.len())
            &&& m1.actions.len() > 0 ==> !script::is_spent(m1.actions[0])
                && !(m1.actions[0] is StopChecking)
        }),
    decreases m.actions.len(),
{
    if m.actions.len() > 0 {
        let next = m.popped();
        advance_keeps(next, now);
        advance_keeps(State { waiting: None, ..next }, now);
        advance_keeps(State { checks_enabled: false, ..next }, now);
    }
}

/// Moving on twice at one time is moving on once.
pub proof fn advance_is_idempotent(m: State, now: nat)
    ensures
        script::advance(script::advance(m, now), now) == script::advance(m, now),
    decreases m.actions.len(),
{
    if m.actions.len() > 0 {
        let next = m.popped();
        advance_is_idempotent(next, now);
        advance_is_idempotent(State { waiting: None, ..next }, now);
        advance_is_idempotent(State { checks_enabled: false, ..next }, now);
    }
}

/// Whether an action has nothing left to do: its bytes are read or written, its error is handed
/// out, its end of file or its shutdown was seen. Waits and ends of checking are not counted.
pub open spec fn is_done(a: ActionView) -> bool {
    match a {
        ActionView::Read(data) | ActionView::Write(data) => data =~= Seq::empty(),
        ActionView::ReadZeroes(n) | ActionView::WriteZeroes(n) | ActionView::IgnoreWritten(n) => {
            n == 0
        },
        ActionView::ReadError(error) | ActionView::WriteError(error) => error is None,
        ActionView::WriteShutdown(seen) | ActionView::ReadEof(seen) => seen,
        ActionView::Wait(_) | ActionView::StopChecking => false,
    }
}

/// Whether a wait has begun only if it is at the head of the script.
pub open spec fn is_settled(m: State) -> bool {
    m.waiting is Some ==> m.actions.len() > 0 && m.actions[0] is Wait
}

/// Whether the action at place `i` is over at time `now`, if all before it are. A wait that has
/// begun is over at its end; one that has not begun is over if it takes no time.
pub open spec fn is_over(m: State, i: int, now: nat) -> bool {
    match m.actions[i] {
        ActionView::StopChecking => true,
        ActionView::Wait(span) => if i == 0 && m.waiting is Some {
            m.waiting->0 <= now
        } else {
            span == 0
        },
        a => is_done(a),
    }
}

/// Moving on at time `now` has dropped the first `k` actions, and nothing else: they are over, and
/// the next one is not. Checking has ended if an end of checking is among them. A wait that is
/// next has begun, now if it had not begun before; nothing else is waited for.
pub open spec fn has_moved(m: State, m1: State, k: int, now: nat) -> bool {
    &&& 0 <= k <= m.actions.len()
    &&& forall|i: int| 0 <= i < k ==> #[trigger] is_over(m, i, now)
    &&& k < m.actions.len() ==> !is_over(m, k, now)
    &&& m1 == (State {
        actions: m.actions.skip(k),
        checks_enabled: m.checks_enabled && forall|i: int|
            0 <= i < k ==> !(#[trigger] m.actions[i] is StopChecking),
        waiting: if k < m.actions.len() && m.actions[k] is Wait {
            if k == 0 && m.waiting is Some {
                m.waiting
            } else {
                Some(now + m.actions[k]->Wait_0)
            }
        } else {
            None
        },
        ..m
    })
}

/// Moving on drops just the actions at the head of the script that are over.
pub proof fn advance_drops_what_is_over(m: State, now: nat) -> (k: int)
    requires
        is_settled(m),
    ensures
        k == m.actions.len() - script::advance(m, now).actions.len(),
        has_moved(m, script::advance(m, now), k, now),
        is_settled(script::advance(m, now)),
    decreases m.actions.len(),
{
    let m1 = script::advance(m, now);
    if m.actions.len() == 0 || !is_over(m, 0, now) {
        assert(m.actions.skip(0) =~= m.actions);
        0
    } else {
        let ends = m.actions[0] is StopChecking;
        let next = State {
            waiting: None,
            checks_enabled: m.checks_enabled && !ends,
            actions: m.actions.skip(1),
            ..m
        };
        assert(m1 == script::advance(next, now));
        let k = advance_drops_what_is_over(next, now) + 1;
        assert(m.actions.skip(k) =~= next.actions.skip(k - 1));
        assert forall|i: int| 0 <= i < k implies #[trigger] is_over(m, i, now) by {
            if i > 0 {
                assert(m.actions[i] == next.actions[i - 1]);
                assert(is_over(next, i - 1, now));
            }
        }
        if k < m.actions.len() {
            assert(m.actions[k] == next.actions[k - 1]);
        }
        let passes = forall|i: int| 0 <= i < k ==> !(#[trigger] m.actions[i] is StopChecking);
        let later = forall|i: int|
            0 <= i < k - 1 ==> !(#[trigger] next.actions[i] is StopChecking);
        if passes {
            assert forall|i: int| 0 <= i < k - 1 implies !(
            #[trigger] next.actions[i] is StopChecking) by {
                assert(next.actions[i] == m.actions[i + 1]);
            }
        }
        if !ends && later {
            assert forall|i: int| 0 <= i < k implies !(
            #[trigger] m.actions[i] is StopChecking) by {
                if i > 0 {
                    assert(m.actions[i] == next.actions[i - 1]);
                }
            }
        }
        k
    }
}

} // verus!
