//! How long a wait lasts, and what lies behind it.

use crate::action::ActionView;
use crate::laws::advancing;
use crate::laws::reads;
use crate::laws::shutdowns;
use crate::laws::streams::{self, Operation};
use crate::laws::writes;
use crate::script::{self, State, StepView};
use vstd::prelude::*;

verus! {

/// The state while a wait is at the head of the script, up to time `until`.
pub open spec fn waits_until(m: State, span: nat, until: nat) -> bool {
    &&& m.actions.len() > 0
    &&& m.actions[0] == ActionView::Wait(span)
    &&& m.waiting == Some(until)
}

/// A wait begins with the first operation that finds it at the head of the script: the operation
/// is to sleep for its span.
pub proof fn wait_begins(m: State, span: nat, room: nat, now: nat)
    requires
        m.actions.len() > 0,
        m.actions[0] == ActionView::Wait(span),
        m.waiting is None,
        span > 0,
    ensures
        ({
            let (m1, step) = script::poll_read(m, room, now);
            &&& m1 == (State { waiting: Some(now + span), ..m })
            &&& waits_until(m1, span, now + span)
            &&& step == StepView::<Seq<u8>>::Sleep(span)
        }),
{
}

/// A wait that takes no time holds nothing up.
pub proof fn wait_of_no_time(m: State, room: nat, now: nat)
    requires
        m.actions.len() > 0,
        m.actions[0] == ActionView::Wait(0),
        m.waiting is None,
    ensures
        script::poll_read(m, room, now) == script::poll_read(m.popped(), room, now),
{
}

/// Until a wait is over, every operation is to sleep, and nothing else happens.
pub proof fn wait_lasts(m: State, span: nat, until: nat, room: nat, src: Seq<u8>, now: nat)
    requires
        waits_until(m, span, until),
        now < until,
    ensures
        script::poll_read(m, room, now) == (m, StepView::<Seq<u8>>::Sleep(span)),
        script::poll_write(m, src, now) == (m, StepView::<usize>::Sleep(span)),
        m.shutdown_checking_enabled ==> script::poll_shutdown(m, now) == (
            m,
            StepView::<()>::Sleep(span),
        ),
{
}

/// Once a wait is over, the script goes on behind it.
pub proof fn wait_ends(m: State, span: nat, until: nat, room: nat, now: nat)
    requires
        waits_until(m, span, until),
        now >= until,
    ensures
        ({
            let behind = State { waiting: None, ..m.popped() };
            &&& script::advance(m, now) == script::advance(behind, now)
            &&& script::poll_read(m, room, now) == script::poll_read(behind, room, now)
        }),
{
}

/// The end of checking takes effect when it is reached, and the script goes on behind it: what
/// is there to be read can still be read.
pub proof fn checking_ends(m: State, room: nat, now: nat)
    requires
        m.actions.len() > 0,
        m.actions[0] is StopChecking,
    ensures
        ({
            let behind = State { checks_enabled: false, ..m.popped() };
            &&& script::advance(m, now) == script::advance(behind, now)
            &&& !script::advance(m, now).checks_enabled
            &&& script::poll_read(m, room, now) == script::poll_read(behind, room, now)
        }),
{
    let behind = State { checks_enabled: false, ..m.popped() };
    advancing::advance_keeps(behind, now);
}

/// A poll leaves a wait begun only at the head of the script.
proof fn poll_stays_settled(m: State, room: nat, src: Seq<u8>, now: nat)
    requires
        advancing::is_settled(m),
    ensures
        advancing::is_settled(script::poll_read(m, room, now).0),
        advancing::is_settled(script::poll_write(m, src, now).0),
        advancing::is_settled(script::poll_shutdown(m, now).0),
{
    advancing::advance_drops_what_is_over(m, now);
    advancing::advance_keeps(m, now);
    advancing::advance_is_idempotent(m, now);
    let m1 = script::advance(m, now);
    reads::read_gives_what_is_next(m, room, now);
    let r = script::read(m, room, now).0;
    assert(advancing::is_settled(r));
    advancing::advance_drops_what_is_over(r, now);
    if m.actions.len() > 0 && writes::finds_the_script(m1) {
        writes::write_leaves_the_rest(m, src, now);
    }
    let w = script::write(m, src, now).0;
    assert(advancing::is_settled(w));
    advancing::advance_drops_what_is_over(w, now);
    if m.shutdown_checking_enabled {
        let j = shutdowns::shutdown_is_decided_where_it_stops(m, now);
        let d = shutdowns::shutdown_at(m1, j).0;
        if !(m1.actions.len() > 0 && m1.actions[0] is Wait) {
            assert(advancing::is_settled(d));
            advancing::advance_drops_what_is_over(d, now);
        }
    }
}

/// A wait has begun only while it is at the head of the script: no turn of the reader or the writer
/// changes that, whatever comes through the channel, nor does the end.
pub proof fn turn_begins_no_other_wait(m: State, operation: Operation, panicking: bool)
    requires
        advancing::is_settled(m),
    ensures
        advancing::is_settled(streams::after(m, operation).0),
        advancing::is_settled(script::finish(m, panicking).0),
{
    match operation.event() {
        script::EventView::Opening(script::IncomingView::Action(a))
        | script::EventView::Incoming(script::IncomingView::Action(a)) => {
            let more = State { actions: m.actions.push(a), ..m };
            match operation {
                Operation::Read { room, now, .. } => poll_stays_settled(more, room, seq![], now),
                Operation::Write { src, now, .. } => poll_stays_settled(more, 0, src, now),
                Operation::Shutdown { now, .. } => poll_stays_settled(more, 0, seq![], now),
            }
        },
        _ => match operation {
            Operation::Read { room, now, .. } => poll_stays_settled(m, room, seq![], now),
            Operation::Write { src, now, .. } => poll_stays_settled(m, 0, src, now),
            Operation::Shutdown { now, .. } => poll_stays_settled(m, 0, seq![], now),
        },
    }
}

/// In every run, a wait has begun only while it is at the head of the script.
pub proof fn run_begins_no_other_wait(m: State, run: Seq<Operation>)
    requires
        advancing::is_settled(m),
    ensures
        advancing::is_settled(streams::after_all(m, run).0),
    decreases run.len(),
{
    if run.len() > 0 {
        run_begins_no_other_wait(m, run.drop_last());
        turn_begins_no_other_wait(
            streams::after_all(m, run.drop_last()).0,
            run.last(),
            false,
        );
    }
}

/// A wait is waited for, in every run of a mock: if it has not begun when the first operation
/// finds it next in the script, at time `now`, that operation and all that come before the time
/// `now + span` are to sleep, and leave the mock as it is.
pub proof fn wait_is_waited_for(
    actions: Seq<ActionView>,
    name: Seq<char>,
    held: bool,
    reporter: Option<nat>,
    run: Seq<Operation>,
    span: nat,
    now: nat,
    later: nat,
    room: nat,
    src: Seq<u8>,
)
    requires
        ({
            let m = streams::after_all(script::start(actions, name, held, reporter), run).0;
            let m1 = script::advance(m, now);
            &&& m1.actions.len() > 0
            &&& m1.actions[0] == ActionView::Wait(span)
            &&& m.actions[0] is Wait && m1.actions.len() == m.actions.len() ==> m.waiting is None
        }),
        now <= later < now + span,
    ensures
        ({
            let m = streams::after_all(script::start(actions, name, held, reporter), run).0;
            let m1 = script::advance(m, now);
            &&& waits_until(m1, span, now + span)
            &&& script::poll_read(m, room, now) == (m1, StepView::<Seq<u8>>::Sleep(span))
            &&& script::poll_read(m1, room, later) == (m1, StepView::<Seq<u8>>::Sleep(span))
            &&& script::poll_write(m, src, now) == (m1, StepView::<usize>::Sleep(span))
            &&& script::poll_write(m1, src, later) == (m1, StepView::<usize>::Sleep(span))
            &&& m.shutdown_checking_enabled ==> {
                &&& script::poll_shutdown(m, now) == (m1, StepView::<()>::Sleep(span))
                &&& script::poll_shutdown(m1, later) == (m1, StepView::<()>::Sleep(span))
            }
        }),
{
    let m0 = script::start(actions, name, held, reporter);
    let m = streams::after_all(m0, run).0;
    let m1 = script::advance(m, now);
    run_begins_no_other_wait(m0, run);
    advancing::advance_drops_what_is_over(m, now);
    advancing::advance_is_idempotent(m, now);
    advancing::advance_keeps(m, now);
    wait_lasts(m1, span, now + span, room, src, later);
}

} // verus!
