//! Reading zeroes is reading a buffer of zeroes.

use crate::action::ActionView;
use crate::laws::advancing;
use crate::outcome::MockOutcomeError;
use crate::script::{self, FailureView, State};
use vstd::prelude::*;

verus! {

/// The action with its zeroes in a buffer.
pub open spec fn in_full(a: ActionView) -> ActionView {
    match a {
        ActionView::ReadZeroes(n) => ActionView::Read(script::zeroes(n)),
        _ => a,
    }
}

/// The mock with the zeroes that its script has for the reader in buffers.
pub open spec fn spelled_out(m: State) -> State {
    State { actions: m.actions.map_values(|a: ActionView| in_full(a)), ..m }
}

proof fn spelled_out_popped(m: State)
    requires
        m.actions.len() > 0,
    ensures
        spelled_out(m).popped() == spelled_out(m.popped()),
{
    assert(spelled_out(m).popped().actions =~= spelled_out(m.popped()).actions);
}

proof fn advance_spelled_out(m: State, now: nat)
    ensures
        script::advance(spelled_out(m), now) == spelled_out(script::advance(m, now)),
    decreases m.actions.len(),
{
    if m.actions.len() > 0 {
        spelled_out_popped(m);
        let next = m.popped();
        advance_spelled_out(next, now);
        advance_spelled_out(State { waiting: None, ..next }, now);
        advance_spelled_out(State { checks_enabled: false, ..next }, now);
        assert(State { waiting: None, ..spelled_out(m) }.popped() == spelled_out(
            State { waiting: None, ..next },
        ));
        assert(State { checks_enabled: false, ..spelled_out(m) }.popped() == spelled_out(
            State { checks_enabled: false, ..next },
        ));
    }
}

proof fn read_spelled_out(m: State, room: nat, now: nat)
    ensures
        ({
            let (m1, result) = script::read(m, room, now);
            script::read(spelled_out(m), room, now) == (spelled_out(m1), result)
        }),
{
    advance_spelled_out(m, now);
    advancing::advance_keeps(m, now);
    let before = script::advance(m, now);
    let (m1, result) = script::read(m, room, now);
    let (m2, same) = script::read(spelled_out(m), room, now);
    if before.actions.len() > 0 {
        let a = before.actions[0];
        assert(spelled_out(before).actions[0] == in_full(a));
        assert(script::readable(in_full(a)) =~= script::readable(a));
        let n = script::min(room, script::readable(a).len());
        if a is ReadZeroes {
            let len = a->ReadZeroes_0;
            assert(script::zeroes(len).skip(n as int) =~= script::zeroes((len - n) as nat));
        }
        assert(m2.actions =~= spelled_out(m1).actions);
    }
}

/// To sequence a number of zeroes to be read is the same as to sequence a buffer of zeroes: the
/// reader is given the same answers, now and later.
pub proof fn zeroes_read_like_a_buffer(m: State, room: nat, now: nat)
    ensures
        ({
            let (m1, step) = script::poll_read(m, room, now);
            script::poll_read(spelled_out(m), room, now) == (spelled_out(m1), step)
        }),
{
    read_spelled_out(m, room, now);
    let m1 = script::read(m, room, now).0;
    advance_spelled_out(m1, now);
    let m2 = script::advance(m1, now);
    if m2.actions.len() > 0 {
        assert(spelled_out(m2).actions[0] == in_full(m2.actions[0]));
        let b = ActionView::WriteShutdown(true);
        spelled_out_replaced(m2.reported(Err(MockOutcomeError::Other)), 0, b);
    }
}

/// Zeroes have no place for a write, nor do buffers to be read.
proof fn no_place_spelled_out(m: State)
    ensures
        spelled_out(m).has_no_place_for_a_write() == m.has_no_place_for_a_write(),
{
    let full = spelled_out(m);
    assert forall|i: int| 0 <= i < m.actions.len() implies script::is_for_writer(
        #[trigger] full.actions[i],
    ) == script::is_for_writer(m.actions[i]) by {
        assert(full.actions[i] == in_full(m.actions[i]));
    }
    if full.has_no_place_for_a_write() {
        assert forall|i: int| 0 <= i < m.actions.len() implies !script::is_for_writer(
            #[trigger] m.actions[i],
        ) by {
            assert(!script::is_for_writer(full.actions[i]));
        }
    }
}

proof fn spelled_out_replaced(m: State, i: int, b: ActionView)
    requires
        0 <= i < m.actions.len(),
        !(b is ReadZeroes),
    ensures
        spelled_out(m).replaced(i, b) == spelled_out(m.replaced(i, b)),
{
    assert(spelled_out(m).replaced(i, b).actions =~= spelled_out(m.replaced(i, b)).actions);
}

proof fn give_spelled_out(m: State, i: int, src: Seq<u8>, n: nat, checking: bool)
    requires
        0 <= i < m.actions.len(),
        script::takes_bytes(m.actions[i]),
    ensures
        script::give(spelled_out(m), i, src, n, checking) == match script::give(
            m,
            i,
            src,
            n,
            checking,
        ) {
            Ok((m1, still)) => Ok::<(State, bool), FailureView>((spelled_out(m1), still)),
            Err(failure) => Err(failure),
        },
{
    let b = script::consumed(m.actions[i], n);
    let m1 = State { written_bytes: m.written_bytes + n, ..m };
    spelled_out_replaced(m1, i, b);
    if let Some(k) = script::first_mismatch(m.actions[i], src, 0, n) {
        let error = MockOutcomeError::WrittenByteMismatch {
            expected: script::expected(m.actions[i], k as int)->0,
            actual: src[k as int],
        };
        let m2 = State { written_bytes: m.written_bytes + k, ..m }.reported(Err(error));
        spelled_out_replaced(State { written_bytes: m.written_bytes + n, ..m2 }, i, b);
    }
}

proof fn scan_write_spelled_out(m: State, i: nat, src: Seq<u8>, checking: bool)
    ensures
        ({
            let (m1, result) = script::scan_write(m, i, src, checking);
            script::scan_write(spelled_out(m), i, src, checking) == (spelled_out(m1), result)
        }),
    decreases m.actions.len() - i,
{
    if i < m.actions.len() {
        let a = m.actions[i as int];
        assert(spelled_out(m).actions[i as int] == in_full(a));
        if script::takes_bytes(a) {
            let n = script::min(src.len(), script::capacity(a));
            give_spelled_out(m, i as int, src, n, checking);
            if let Ok((m2, still)) = script::give(m, i as int, src, n, checking) {
                scan_write_spelled_out(m2, i + 1, src.skip(n as int), still);
            }
        } else if a is WriteShutdown {
            let b = ActionView::WriteShutdown(true);
            spelled_out_replaced(m, i as int, b);
            spelled_out_replaced(
                m.reported(Err(MockOutcomeError::WriteInsteadOfShutdown)),
                i as int,
                b,
            );
        } else {
            scan_write_spelled_out(m, i + 1, src, checking);
            scan_write_spelled_out(m, i + 1, src, false);
        }
    }
}

/// Nor does it matter to the writer.
pub proof fn zeroes_write_like_a_buffer(m: State, src: Seq<u8>, now: nat)
    ensures
        ({
            let (m1, step) = script::poll_write(m, src, now);
            script::poll_write(spelled_out(m), src, now) == (spelled_out(m1), step)
        }),
{
    advance_spelled_out(m, now);
    let before = script::advance(m, now);
    scan_write_spelled_out(before, 0, src, before.checks_enabled);
    if before.actions.len() > 0 {
        assert(spelled_out(before).actions[0] == in_full(before.actions[0]));
        spelled_out_replaced(before, 0, ActionView::WriteError(None));
    }
    let m1 = script::write(m, src, now).0;
    advance_spelled_out(m1, now);
    let m2 = script::advance(m1, now);
    no_place_spelled_out(m2);
    if m2.actions.len() > 0 {
        assert(spelled_out(m2).actions[0] == in_full(m2.actions[0]));
    }
}

} // verus!
