//! What a read is answered, and what it leaves.

use crate::action::ActionView;
use crate::error::{ErrorKind, IoError};
use crate::laws::advancing;
use crate::laws::streams;
use crate::outcome::{MockOutcome, MockOutcomeError};
use crate::script::{self, EventView, IncomingView, State, StepView};
use vstd::prelude::*;

verus! {

/// The answer that hands out a result, and wakes nobody.
pub open spec fn answer<V>(result: Result<V, IoError>) -> StepView<V> {
    StepView::Ready { result, wake_reader: false }
}

/// An error of a kind that stands for no other.
pub open spec fn bare(kind: ErrorKind) -> IoError {
    IoError { kind, cause: None }
}

/// The state after the report of what is wrong: it is made once, and nothing is objected to any
/// more.
pub open spec fn after_report(m: State, error: MockOutcomeError) -> State {
    State {
        checks_enabled: false,
        armed: false,
        report: Some(
            MockOutcome {
                outcome: Err(error),
                total_read_bytes: m.read_bytes as u64,
                total_written_bytes: m.written_bytes as u64,
            },
        ),
        ..m
    }
}

/// The state with one action in the place of another.
pub open spec fn with_action(m: State, i: int, a: ActionView) -> State {
    State { actions: m.actions.update(i, a), ..m }
}

/// The first `room` bytes, or all if there are fewer.
pub open spec fn at_most(data: Seq<u8>, room: nat) -> Seq<u8> {
    if data.len() <= room {
        data
    } else {
        data.take(room as int)
    }
}

/// What a reader that finds nothing to read is to do: to sleep through a wait, or to wait for the
/// writer. If the writer is to shut down next, and that is checked, the read is in its place.
pub open spec fn is_held_up(m: State, m1: State, step: StepView<Seq<u8>>) -> bool {
    if m.actions.len() > 0 && m.actions[0] is Wait {
        m1 == m && step == StepView::<Seq<u8>>::Sleep(m.actions[0]->Wait_0)
    } else if m.actions.len() > 0 && m.actions[0] is WriteShutdown && m.shutdown_checking_enabled
        && m.checks_enabled {
        if m.armed {
            &&& m1 == with_action(
                after_report(m, MockOutcomeError::Other),
                0,
                ActionView::WriteShutdown(true),
            )
            &&& step == answer(Err::<Seq<u8>, IoError>(bare(ErrorKind::InvalidData)))
        } else {
            m1 == m && step is Panic
        }
    } else {
        m1 == m && step is AwaitWrite
    }
}

/// A read gives what is next in the script, as far as there is room, and leaves the rest; an end
/// of file and an error it gives once. Nothing else in the script changes, nor in the mock but
/// the count of bytes. Where nothing is to be read, the reader is held up.
pub proof fn read_gives_what_is_next(m: State, room: nat, now: nat)
    ensures
        ({
            let m1 = script::advance(m, now);
            let (m2, step) = script::poll_read(m, room, now);
            if m1.actions.len() == 0 {
                m2 == m1 && step is Poll
            } else {
                match m1.actions[0] {
                    ActionView::Read(data) => {
                        let given = at_most(data, room);
                        &&& m2 == (State {
                            read_bytes: m1.read_bytes + given.len(),
                            ..with_action(
                                m1,
                                0,
                                ActionView::Read(data.skip(given.len() as int)),
                            )
                        })
                        &&& given.len() > 0 ==> step == answer(Ok::<Seq<u8>, IoError>(given))
                        &&& given.len() == 0 ==> step is Poll
                    },
                    ActionView::ReadZeroes(n) => {
                        let given = at_most(streams::bytes_to_read(m1.actions[0]), room);
                        &&& m2 == (State {
                            read_bytes: m1.read_bytes + given.len(),
                            ..with_action(
                                m1,
                                0,
                                ActionView::ReadZeroes((n - given.len()) as nat),
                            )
                        })
                        &&& given.len() > 0 ==> step == answer(Ok::<Seq<u8>, IoError>(given))
                        &&& given.len() == 0 ==> step is Poll
                    },
                    ActionView::ReadEof(_) => {
                        &&& m2 == with_action(m1, 0, ActionView::ReadEof(true))
                        &&& step == answer(Ok::<Seq<u8>, IoError>(Seq::empty()))
                    },
                    ActionView::ReadError(Some(error)) => {
                        let m3 = with_action(m1, 0, ActionView::ReadError(None));
                        if error.kind is WouldBlock {
                            is_held_up(script::advance(m3, now), m2, step)
                        } else {
                            &&& m2 == m3
                            &&& step == answer(Err::<Seq<u8>, IoError>(error))
                        }
                    },
                    _ => is_held_up(m1, m2, step),
                }
            }
        }),
{
    advancing::advance_keeps(m, now);
    advancing::advance_is_idempotent(m, now);
    let m1 = script::advance(m, now);
    if m1.actions.len() > 0 {
        let a = m1.actions[0];
        let data = streams::bytes_to_read(a);
        assert(script::readable(a) =~= data);
        let n = script::min(room, data.len());
        assert(data.take(n as int) =~= at_most(data, room));
        if let ActionView::ReadError(Some(error)) = a {
            let m3 = with_action(m1, 0, ActionView::ReadError(None));
            advancing::advance_keeps(m3, now);
            advancing::advance_is_idempotent(m3, now);
        }
    }
}

/// A reader that looks at the channel waits if nothing has come, is told of the end of the file if
/// nothing more comes, and else begins again with what has come, whatever it is, at the end of
/// the script.
pub proof fn read_takes_what_comes(m: State, incoming: IncomingView, room: nat, now: nat)
    ensures
        forall|event: EventView|
            event == EventView::Opening(incoming) || event == EventView::Incoming(incoming) ==> (
            #[trigger] script::read_turn(m, event, room, now)) == match incoming {
                IncomingView::Pending => (m, StepView::<Seq<u8>>::Pending),
                IncomingView::Closed => (m, answer(Ok::<Seq<u8>, IoError>(Seq::empty()))),
                IncomingView::Action(a) => (
                    State { actions: m.actions.push(a), ..m },
                    StepView::<Seq<u8>>::Proceed,
                ),
            },
        script::read_turn(m, EventView::Begin, room, now) == script::poll_read(m, room, now),
{
}

/// The state after a reader was handed some actions, one after the other.
pub open spec fn handed(m: State, actions: Seq<ActionView>, room: nat, now: nat) -> State
    decreases actions.len(),
{
    if actions.len() == 0 {
        m
    } else {
        script::read_turn(
            handed(m, actions.drop_last(), room, now),
            EventView::Incoming(IncomingView::Action(actions.last())),
            room,
            now,
        ).0
    }
}

/// A mock whose handle sent some actions is as one that was built with them.
pub proof fn sent_actions_are_as_built(
    actions: Seq<ActionView>,
    sent: Seq<ActionView>,
    name: Seq<char>,
    checked: bool,
    reporter: Option<nat>,
    room: nat,
    now: nat,
)
    ensures
        handed(script::start(actions, name, checked, reporter), sent, room, now) == script::start(
            actions + sent,
            name,
            checked,
            reporter,
        ),
    decreases sent.len(),
{
    if sent.len() == 0 {
        assert(actions + sent =~= actions);
    } else {
        let before = sent.drop_last();
        sent_actions_are_as_built(actions, before, name, checked, reporter, room, now);
        assert((actions + before).push(sent.last()) =~= actions + sent);
    }
}

/// A round of a reader is a turn, and the one look at the channel that it asks for.
pub proof fn read_round_makes_one_look(m: State, look: IncomingView, room: nat, now: nat)
    ensures
        ({
            let (m1, step) = script::poll_read(m, room, now);
            let (m2, answer, looks) = script::read_round(m, look, room, now);
            if step is Poll {
                &&& looks == seq![look]
                &&& (m2, answer) == script::read_turn(m1, EventView::Incoming(look), room, now)
            } else {
                looks.len() == 0 && m2 == m1 && answer == step
            }
        }),
{
}

} // verus!
