//! Reads give the bytes of the script, writes take them.

use crate::action::ActionView;
use crate::laws::advancing;
use crate::script::{self, ChunkView, EventView, IncomingView, State, StepView};
use vstd::prelude::*;

verus! {

/// The bytes that an action still has for the reader.
pub open spec fn bytes_to_read(a: ActionView) -> Seq<u8> {
    match a {
        ActionView::Read(data) => data,
        ActionView::ReadZeroes(n) => Seq::new(n, |k: int| 0u8),
        _ => Seq::empty(),
    }
}

/// The bytes that a script still has for the reader.
pub open spec fn read_stream(actions: Seq<ActionView>) -> Seq<u8>
    decreases actions.len(),
{
    if actions.len() == 0 {
        Seq::empty()
    } else {
        bytes_to_read(actions[0]) + read_stream(actions.skip(1))
    }
}

/// What an action expects of each byte that it still takes; `None` stands for any byte.
pub open spec fn wanted(a: ActionView) -> Seq<Option<u8>> {
    match a {
        ActionView::Write(data) => Seq::new(data.len(), |k: int| Some(data[k])),
        ActionView::WriteZeroes(n) => Seq::new(n, |k: int| Some(0u8)),
        ActionView::IgnoreWritten(n) => Seq::new(n, |k: int| None),
        _ => Seq::empty(),
    }
}

/// What a script expects of each byte that it still takes.
pub open spec fn write_stream(actions: Seq<ActionView>) -> Seq<Option<u8>>
    decreases actions.len(),
{
    if actions.len() == 0 {
        Seq::empty()
    } else {
        wanted(actions[0]) + write_stream(actions.skip(1))
    }
}

/// Replacing an action replaces its part of the streams.
proof fn streams_split(actions: Seq<ActionView>, i: int)
    requires
        0 <= i < actions.len(),
    ensures
        read_stream(actions) == read_stream(actions.take(i)) + bytes_to_read(actions[i])
            + read_stream(actions.skip(i + 1)),
        write_stream(actions) == write_stream(actions.take(i)) + wanted(actions[i])
            + write_stream(actions.skip(i + 1)),
    decreases i,
{
    if i == 0 {
        assert(read_stream(actions.take(0)) =~= Seq::empty());
        assert(write_stream(actions.take(0)) =~= Seq::empty());
        assert(read_stream(actions) =~= read_stream(actions.take(0)) + bytes_to_read(actions[0])
            + read_stream(actions.skip(1)));
        assert(write_stream(actions) =~= write_stream(actions.take(0)) + wanted(actions[0])
            + write_stream(actions.skip(1)));
    } else {
        let rest = actions.skip(1);
        streams_split(rest, i - 1);
        assert(rest.take(i - 1) =~= actions.take(i).skip(1));
        assert(rest.skip(i) =~= actions.skip(i + 1));
        assert(rest[i - 1] == actions[i]);
        assert(actions.take(i)[0] == actions[0]);
        assert(read_stream(actions) =~= read_stream(actions.take(i)) + bytes_to_read(actions[i])
            + read_stream(actions.skip(i + 1)));
        assert(write_stream(actions) =~= write_stream(actions.take(i)) + wanted(actions[i])
            + write_stream(actions.skip(i + 1)));
    }
}

/// Adding an action adds its part to the streams.
pub proof fn streams_grow(actions: Seq<ActionView>, a: ActionView)
    ensures
        read_stream(actions.push(a)) == read_stream(actions) + bytes_to_read(a),
        write_stream(actions.push(a)) == write_stream(actions) + wanted(a),
{
    let more = actions.push(a);
    streams_split(more, actions.len() as int);
    assert(more.take(actions.len() as int) =~= actions);
    assert(more.skip(actions.len() as int + 1) =~= Seq::empty());
    assert(read_stream(more) =~= read_stream(actions) + bytes_to_read(a));
    assert(write_stream(more) =~= write_stream(actions) + wanted(a));
}

/// Moving on in the script does not lose a byte.
pub proof fn advance_keeps_streams(m: State, now: nat)
    ensures
        read_stream(script::advance(m, now).actions) == read_stream(m.actions),
        write_stream(script::advance(m, now).actions) == write_stream(m.actions),
    decreases m.actions.len(),
{
    if m.actions.len() > 0 {
        let next = m.popped();
        advance_keeps_streams(next, now);
        advance_keeps_streams(State { waiting: None, ..next }, now);
        advance_keeps_streams(State { checks_enabled: false, ..next }, now);
        let a = m.actions[0];
        if script::is_spent(a) || a is Wait || a is StopChecking {
            assert(bytes_to_read(a) =~= Seq::empty());
            assert(wanted(a) =~= Seq::empty());
            assert(read_stream(m.actions) =~= read_stream(next.actions));
            assert(write_stream(m.actions) =~= write_stream(next.actions));
        }
    }
}

/// A read gives the next bytes of the script, as many as there is room for and at least one if
/// there is room for any; what is left of the script are the bytes behind them. Nothing else
/// takes bytes from the reader: an end of file, an error and a refusal leave them.
pub proof fn read_gives_the_script(m: State, room: nat, now: nat)
    ensures
        ({
            let (m1, result) = script::read(m, room, now);
            &&& write_stream(m1.actions) == write_stream(m.actions)
            &&& m1.written_bytes == m.written_bytes
            &&& match result {
                Ok(ChunkView::Data(data)) => {
                    &&& data.len() <= room
                    &&& room > 0 ==> data.len() > 0
                    &&& read_stream(m.actions) == data + read_stream(m1.actions)
                    &&& m1.read_bytes == m.read_bytes + data.len()
                },
                _ => {
                    &&& read_stream(m1.actions) == read_stream(m.actions)
                    &&& m1.read_bytes == m.read_bytes
                },
            }
        }),
{
    advancing::advance_keeps(m, now);
    advance_keeps_streams(m, now);
    let before = script::advance(m, now);
    let (m1, result) = script::read(m, room, now);
    if before.actions.len() > 0 {
        let a = before.actions[0];
        let b = m1.actions[0];
        streams_split(before.actions, 0);
        streams_split(m1.actions, 0);
        assert(m1.actions.skip(1) =~= before.actions.skip(1));
        assert(wanted(a) =~= wanted(b));
        if result is Ok && result->Ok_0 is Data {
            let data = result->Ok_0->Data_0;
            assert(bytes_to_read(a) =~= data + bytes_to_read(b));
            assert(read_stream(m.actions) =~= data + read_stream(m1.actions));
        } else {
            assert(bytes_to_read(a) =~= bytes_to_read(b));
        }
    }
}

/// `m1` comes from `m` by a write that took `n` bytes from the actions from place `i` on.
spec fn took(m: State, m1: State, i: int, n: int) -> bool {
    &&& m1.actions.len() == m.actions.len()
    &&& forall|j: int| 0 <= j < i ==> #[trigger] m1.actions[j] == m.actions[j]
    &&& 0 <= n <= write_stream(m.actions.skip(i)).len()
    &&& write_stream(m1.actions.skip(i)) == write_stream(m.actions.skip(i)).skip(n)
    &&& m1.written_bytes == m.written_bytes + n
    &&& read_stream(m1.actions) == read_stream(m.actions)
    &&& m1.read_bytes == m.read_bytes
}

/// What the actions from a place on expect begins with what the action at that place expects.
proof fn write_stream_at(actions: Seq<ActionView>, i: int)
    requires
        0 <= i < actions.len(),
    ensures
        write_stream(actions.skip(i)) == wanted(actions[i]) + write_stream(actions.skip(i + 1)),
{
    let here = actions.skip(i);
    assert(here[0] == actions[i]);
    assert(here.skip(1) =~= actions.skip(i + 1));
}

/// Actions that take no bytes do not matter to a write.
proof fn took_further(m: State, m1: State, i: int, n: int)
    requires
        0 <= i < m.actions.len(),
        script::capacity(m.actions[i]) == 0,
        took(m, m1, i + 1, n),
    ensures
        took(m, m1, i, n),
{
    write_stream_at(m.actions, i);
    write_stream_at(m1.actions, i);
    assert(m1.actions[i] == m.actions[i]);
    assert(wanted(m.actions[i]) =~= Seq::empty());
    assert(write_stream(m.actions.skip(i)) =~= write_stream(m.actions.skip(i + 1)));
    assert(write_stream(m1.actions.skip(i)) =~= write_stream(m1.actions.skip(i + 1)));
}

/// Two writes, of which the second begins where the first ends, are one.
proof fn took_both(m: State, m1: State, m2: State, i: int, n1: int, n2: int)
    requires
        0 <= i <= m.actions.len(),
        took(m, m1, i, n1),
        took(m1, m2, i, n2),
    ensures
        took(m, m2, i, n1 + n2),
{
    assert forall|j: int| 0 <= j < i implies #[trigger] m2.actions[j] == m.actions[j] by {
        assert(m1.actions[j] == m.actions[j]);
    }
    let all = write_stream(m.actions.skip(i));
    assert(all.skip(n1).skip(n2) =~= all.skip(n1 + n2));
}

/// Doing nothing takes nothing.
proof fn took_nothing(m: State, i: int)
    ensures
        took(m, m, i, 0),
{
    let all = write_stream(m.actions.skip(i));
    assert(all.skip(0) =~= all);
}

/// An action that is replaced by one that takes the rest of its bytes.
proof fn took_here(m: State, m1: State, i: int, b: ActionView, n: int)
    requires
        0 <= i < m.actions.len(),
        m1.actions == m.actions.update(i, b),
        m1.written_bytes == m.written_bytes + n,
        m1.read_bytes == m.read_bytes,
        0 <= n <= script::capacity(m.actions[i]),
        wanted(b) == wanted(m.actions[i]).skip(n),
        bytes_to_read(b) == bytes_to_read(m.actions[i]),
    ensures
        took(m, m1, i, n),
{
    write_stream_at(m.actions, i);
    write_stream_at(m1.actions, i);
    assert(m1.actions.skip(i + 1) =~= m.actions.skip(i + 1));
    assert(write_stream(m1.actions.skip(i)) =~= write_stream(m.actions.skip(i)).skip(n));
    streams_split(m.actions, i);
    streams_split(m1.actions, i);
    assert(m1.actions.take(i) =~= m.actions.take(i));
}

/// Handing bytes to an action takes them.
proof fn give_takes(m: State, i: int, src: Seq<u8>, n: nat, checking: bool)
    requires
        0 <= i < m.actions.len(),
        script::takes_bytes(m.actions[i]),
        n <= script::capacity(m.actions[i]),
    ensures
        script::give(m, i, src, n, checking) matches Ok((m1, _)) ==> {
            &&& took(m, m1, i, n as int)
            &&& m1.actions[i] == script::consumed(m.actions[i], n)
        },
{
    if let Ok((m1, _)) = script::give(m, i, src, n, checking) {
        let a = m.actions[i];
        let b = script::consumed(a, n);
        assert(wanted(b) =~= wanted(a).skip(n as int));
        assert(bytes_to_read(a) =~= bytes_to_read(b));
        took_here(m, m1, i, b, n as int);
    }
}

/// A write takes the next bytes of the script, and counts them.
proof fn scan_write_takes(m: State, i: nat, src: Seq<u8>, checking: bool)
    requires
        i <= m.actions.len(),
    ensures
        ({
            let (m1, result) = script::scan_write(m, i, src, checking);
            let n = m1.written_bytes - m.written_bytes;
            &&& took(m, m1, i as int, n)
            &&& n <= src.len()
            &&& result matches Ok(taken) ==> taken == n
        }),
    decreases m.actions.len() - i,
{
    took_nothing(m, i as int);
    if i < m.actions.len() {
        let (m1, result) = script::scan_write(m, i, src, checking);
        let a = m.actions[i as int];
        let k = m1.written_bytes - m.written_bytes;
        if script::takes_bytes(a) {
            let n = script::min(src.len(), script::capacity(a));
            give_takes(m, i as int, src, n, checking);
            if let Ok((m2, still)) = script::give(m, i as int, src, n, checking) {
                if n < src.len() {
                    scan_write_takes(m2, i + 1, src.skip(n as int), still);
                    took_further(m2, m1, i as int, k - n);
                    took_both(m, m2, m1, i as int, n as int, k - n);
                }
            }
        } else if a is WriteShutdown {
            let b = ActionView::WriteShutdown(true);
            assert(wanted(b) =~= wanted(a).skip(0));
            if m1 != m {
                took_here(m, m1, i as int, b, 0);
            }
        } else if !(a is Wait || a is WriteError) {
            scan_write_takes(m, i + 1, src, checking);
            scan_write_takes(m, i + 1, src, false);
            took_further(m, m1, i as int, k);
        }
    }
}

/// A write takes the next bytes that the script expects, no more than it is given, and counts
/// them; what is left of the script is what it expects behind them. The number that it returns
/// is the number that it took. It leaves the reader its bytes.
pub proof fn write_takes_the_script(m: State, src: Seq<u8>, now: nat)
    ensures
        ({
            let (m1, result) = script::write(m, src, now);
            let n = m1.written_bytes - m.written_bytes;
            &&& 0 <= n <= src.len()
            &&& n <= write_stream(m.actions).len()
            &&& result matches Ok(taken) ==> taken == n
            &&& write_stream(m1.actions) == write_stream(m.actions).skip(n)
            &&& read_stream(m1.actions) == read_stream(m.actions)
            &&& m1.read_bytes == m.read_bytes
        }),
{
    advancing::advance_keeps(m, now);
    advance_keeps_streams(m, now);
    let before = script::advance(m, now);
    let (m1, result) = script::write(m, src, now);
    assert(write_stream(m.actions) =~= write_stream(m.actions).skip(0));
    if m.actions.len() > 0 && !before.is_waiting() {
        if before.actions.len() > 0 && before.actions[0] is WriteError {
            streams_split(before.actions, 0);
            streams_split(m1.actions, 0);
            assert(m1.actions.skip(1) =~= before.actions.skip(1));
            assert(wanted(before.actions[0]) =~= wanted(m1.actions[0]));
        } else {
            scan_write_takes(before, 0, src, before.checks_enabled);
            assert(before.actions.skip(0) =~= before.actions);
            assert(m1.actions.skip(0) =~= m1.actions);
        }
    }
}

/// Looking for the shutdown leaves the streams.
proof fn scan_shutdown_keeps(m: State, i: nat, checking: bool)
    ensures
        ({
            let m1 = script::scan_shutdown(m, i, checking).0;
            &&& write_stream(m1.actions) == write_stream(m.actions)
            &&& read_stream(m1.actions) == read_stream(m.actions)
            &&& m1.read_bytes == m.read_bytes
            &&& m1.written_bytes == m.written_bytes
        }),
    decreases m.actions.len() - i,
{
    if i < m.actions.len() {
        let a = m.actions[i as int];
        if a is WriteShutdown {
            let b = ActionView::WriteShutdown(true);
            let after = m.actions.update(i as int, b);
            streams_split(m.actions, i as int);
            streams_split(after, i as int);
            assert(after.take(i as int) =~= m.actions.take(i as int));
            assert(after.skip(i as int + 1) =~= m.actions.skip(i as int + 1));
            assert(bytes_to_read(a) =~= bytes_to_read(b));
            assert(wanted(a) =~= wanted(b));
        } else {
            scan_shutdown_keeps(m, i + 1, checking);
            scan_shutdown_keeps(m, i + 1, false);
        }
    }
}

/// A shutdown leaves the reader its bytes and the script its expectations.
pub proof fn shutdown_keeps_the_script(m: State, now: nat)
    ensures
        ({
            let m1 = script::shutdown(m, now).0;
            &&& write_stream(m1.actions) == write_stream(m.actions)
            &&& read_stream(m1.actions) == read_stream(m.actions)
            &&& m1.read_bytes == m.read_bytes
            &&& m1.written_bytes == m.written_bytes
        }),
{
    advancing::advance_keeps(m, now);
    advance_keeps_streams(m, now);
    let before = script::advance(m, now);
    scan_shutdown_keeps(before, 0, before.checks_enabled);
}

/// A poll of the reading side gives the next bytes of the script; whatever else it answers, the
/// bytes stay.
pub proof fn poll_read_gives_the_script(m: State, room: nat, now: nat)
    ensures
        ({
            let (m1, step) = script::poll_read(m, room, now);
            let data = given(step);
            &&& data.len() <= room
            &&& read_stream(m.actions) == data + read_stream(m1.actions)
            &&& m1.read_bytes == m.read_bytes + data.len()
            &&& write_stream(m1.actions) == write_stream(m.actions)
            &&& m1.written_bytes == m.written_bytes
        }),
{
    let (m1, result) = script::read(m, room, now);
    read_gives_the_script(m, room, now);
    advancing::advance_keeps(m1, now);
    advance_keeps_streams(m1, now);
    let m2 = script::advance(m1, now);
    if m2.demands_shutdown() {
        let after = m2.replaced(0, ActionView::WriteShutdown(true)).actions;
        streams_split(m2.actions, 0);
        streams_split(after, 0);
        assert(after.skip(1) =~= m2.actions.skip(1));
        assert(wanted(after[0]) =~= wanted(m2.actions[0]));
    }
    let all = read_stream(m.actions);
    assert(Seq::<u8>::empty() + all =~= all);
}

/// The bytes that an answer of the reading side gives.
pub open spec fn given(step: StepView<Seq<u8>>) -> Seq<u8> {
    match step {
        StepView::Ready { result: Ok(data), wake_reader: _ } => data,
        _ => Seq::empty(),
    }
}

/// What comes of a write or a shutdown that would block takes and gives nothing.
proof fn would_block_keeps_streams<V>(m: State, now: nat)
    ensures
        ({
            let m1 = script::would_block::<V>(m, now).0;
            &&& read_stream(m1.actions) == read_stream(m.actions)
            &&& m1.read_bytes == m.read_bytes
            &&& write_stream(m1.actions) == write_stream(m.actions)
            &&& m1.written_bytes == m.written_bytes
        }),
{
    advancing::advance_keeps(m, now);
    advance_keeps_streams(m, now);
}

/// A poll of the writing side takes the next bytes that the script expects, and counts them; the
/// number that it answers with is the number that it took. A write that is to go on later has
/// taken nothing. It leaves the reader its bytes.
pub proof fn poll_write_takes_the_script(m: State, src: Seq<u8>, now: nat)
    requires
        src.len() <= usize::MAX,
    ensures
        ({
            let (m1, step) = script::poll_write(m, src, now);
            let n = m1.written_bytes - m.written_bytes;
            &&& 0 <= n <= src.len()
            &&& n <= write_stream(m.actions).len()
            &&& step matches StepView::Ready { result: Ok(taken), wake_reader: _ } ==> taken == n
            &&& step is Pending || step is Poll ==> n == 0
            &&& write_stream(m1.actions) == write_stream(m.actions).skip(n)
            &&& read_stream(m1.actions) == read_stream(m.actions)
            &&& m1.read_bytes == m.read_bytes
        }),
{
    let m1 = script::write(m, src, now).0;
    write_takes_the_script(m, src, now);
    advancing::advance_keeps(m1, now);
    advance_keeps_streams(m1, now);
    would_block_keeps_streams::<usize>(m1, now);
}

/// A poll of the writing side to shut it down leaves the reader its bytes and the script its
/// expectations.
pub proof fn poll_shutdown_keeps_the_script(m: State, now: nat)
    ensures
        ({
            let m1 = script::poll_shutdown(m, now).0;
            &&& write_stream(m1.actions) == write_stream(m.actions)
            &&& read_stream(m1.actions) == read_stream(m.actions)
            &&& m1.read_bytes == m.read_bytes
            &&& m1.written_bytes == m.written_bytes
        }),
{
    let m1 = script::shutdown(m, now).0;
    shutdown_keeps_the_script(m, now);
    advancing::advance_keeps(m1, now);
    advance_keeps_streams(m1, now);
    would_block_keeps_streams::<()>(m1, now);
}

/// A turn that a mock takes.
pub enum Operation {
    /// A turn of the reading side.
    Read { event: EventView, room: nat, now: nat },
    /// A turn of the writing side, to write.
    Write { event: EventView, src: Seq<u8>, now: nat },
    /// A turn of the writing side, to shut it down.
    Shutdown { event: EventView, now: nat },
}

impl Operation {
    /// What the mock is told.
    pub open spec fn event(self) -> EventView {
        match self {
            Operation::Read { event, .. } => event,
            Operation::Write { event, .. } => event,
            Operation::Shutdown { event, .. } => event,
        }
    }

    /// The action that comes through the channel, if one does.
    pub open spec fn news(self) -> Seq<ActionView> {
        match self.event() {
            EventView::Opening(IncomingView::Action(a)) => seq![a],
            EventView::Incoming(IncomingView::Action(a)) => seq![a],
            _ => Seq::empty(),
        }
    }

    /// Whether what is to be written fits in memory.
    pub open spec fn fits(self) -> bool {
        self matches Operation::Write { src, .. } ==> src.len() <= usize::MAX
    }
}

/// The state after a turn, and the bytes that it gives the reader.
pub open spec fn after(m: State, operation: Operation) -> (State, Seq<u8>) {
    match operation {
        Operation::Read { event, room, now } => {
            let (m1, step) = script::read_turn(m, event, room, now);
            (m1, given(step))
        },
        Operation::Write { event, src, now } => (
            script::write_turn(m, event, src, now).0,
            Seq::empty(),
        ),
        Operation::Shutdown { event, now } => (
            script::shutdown_turn(m, event, now).0,
            Seq::empty(),
        ),
    }
}

/// The state after a run of turns, and all bytes that it gives the reader.
pub open spec fn after_all(m: State, run: Seq<Operation>) -> (State, Seq<u8>)
    decreases run.len(),
{
    if run.len() == 0 {
        (m, Seq::empty())
    } else {
        let (m1, data) = after_all(m, run.drop_last());
        let (m2, more) = after(m1, run.last());
        (m2, data + more)
    }
}

/// The actions that come through the channel during a run.
pub open spec fn added(run: Seq<Operation>) -> Seq<ActionView>
    decreases run.len(),
{
    if run.len() == 0 {
        Seq::empty()
    } else {
        added(run.drop_last()) + run.last().news()
    }
}

/// The streams of a script are those of its parts.
proof fn streams_join(a: Seq<ActionView>, b: Seq<ActionView>)
    ensures
        read_stream(a + b) == read_stream(a) + read_stream(b),
        write_stream(a + b) == write_stream(a) + write_stream(b),
    decreases b.len(),
{
    if b.len() == 0 {
        assert(a + b =~= a);
        assert(read_stream(a) + read_stream(b) =~= read_stream(a));
        assert(write_stream(a) + write_stream(b) =~= write_stream(a));
    } else {
        let front = b.drop_last();
        streams_join(a, front);
        streams_grow(a + front, b.last());
        streams_grow(front, b.last());
        assert((a + front).push(b.last()) =~= a + b);
        assert(front.push(b.last()) =~= b);
        assert(read_stream(a + b) =~= read_stream(a) + read_stream(b));
        assert(write_stream(a + b) =~= write_stream(a) + write_stream(b));
    }
}

/// A turn gives the reader the next bytes of the script and takes the next that it expects, what
/// comes through the channel included, and counts them.
pub proof fn turn_follows_the_script(m: State, operation: Operation)
    requires
        operation.fits(),
    ensures
        ({
            let (m1, data) = after(m, operation);
            let script = m.actions + operation.news();
            let n = m1.written_bytes - m.written_bytes;
            &&& read_stream(script) == data + read_stream(m1.actions)
            &&& m1.read_bytes == m.read_bytes + data.len()
            &&& 0 <= n <= write_stream(script).len()
            &&& write_stream(m1.actions) == write_stream(script).skip(n)
        }),
{
    let script = m.actions + operation.news();
    let base = State { actions: script, ..m };
    if operation.news().len() == 0 {
        assert(script =~= m.actions);
    } else {
        assert(script =~= m.actions.push(operation.news()[0]));
    }
    assert(Seq::<u8>::empty() + read_stream(script) =~= read_stream(script));
    assert(write_stream(script).skip(0) =~= write_stream(script));
    match operation {
        Operation::Read { event: _, room, now } => {
            poll_read_gives_the_script(base, room, now);
        },
        Operation::Write { event: _, src, now } => {
            poll_write_takes_the_script(base, src, now);
        },
        Operation::Shutdown { event: _, now } => {
            poll_shutdown_keeps_the_script(base, now);
        },
    }
}

/// However a mock is used, its reader gets the bytes of the script, those that were added later
/// included, in their order, and none twice: what has been given, followed by what is still
/// there, is always the whole of it. The mock counts what it gives.
pub proof fn run_gives_the_script(m: State, run: Seq<Operation>)
    requires
        forall|i: int| 0 <= i < run.len() ==> (#[trigger] run[i]).fits(),
    ensures
        ({
            let (m1, data) = after_all(m, run);
            &&& read_stream(m.actions + added(run)) == data + read_stream(m1.actions)
            &&& m1.read_bytes == m.read_bytes + data.len()
        }),
    decreases run.len(),
{
    if run.len() == 0 {
        assert(m.actions + added(run) =~= m.actions);
        assert(Seq::<u8>::empty() + read_stream(m.actions) =~= read_stream(m.actions));
    } else {
        let before = run.drop_last();
        run_gives_the_script(m, before);
        let (m1, data) = after_all(m, before);
        let (m2, more) = after(m1, run.last());
        let news = run.last().news();
        assert(run[run.len() - 1] == run.last());
        turn_follows_the_script(m1, run.last());
        streams_join(m1.actions, news);
        streams_join(m.actions + added(before), news);
        assert(m.actions + added(run) =~= m.actions + added(before) + news);
        assert(data + more + read_stream(m2.actions) =~= data + (more + read_stream(m2.actions)));
        assert(data + (read_stream(m1.actions) + read_stream(news)) =~= data + read_stream(
            m1.actions,
        ) + read_stream(news));
    }
}

/// However a mock is used, it takes what the script expects, what was added later included, in
/// its order, and nothing twice: what is still expected is what lies behind the bytes that were
/// taken. The mock counts what it takes.
pub proof fn run_takes_the_script(m: State, run: Seq<Operation>)
    requires
        forall|i: int| 0 <= i < run.len() ==> (#[trigger] run[i]).fits(),
    ensures
        ({
            let m1 = after_all(m, run).0;
            let n = m1.written_bytes - m.written_bytes;
            let all = write_stream(m.actions + added(run));
            &&& 0 <= n <= all.len()
            &&& write_stream(m1.actions) == all.skip(n)
        }),
    decreases run.len(),
{
    if run.len() == 0 {
        assert(m.actions + added(run) =~= m.actions);
        assert(write_stream(m.actions).skip(0) =~= write_stream(m.actions));
    } else {
        let before = run.drop_last();
        run_takes_the_script(m, before);
        let m1 = after_all(m, before).0;
        let m2 = after(m1, run.last()).0;
        let news = run.last().news();
        let all = write_stream(m.actions + added(before));
        let n = m1.written_bytes - m.written_bytes;
        let k = m2.written_bytes - m1.written_bytes;
        assert(run[run.len() - 1] == run.last());
        turn_follows_the_script(m1, run.last());
        streams_join(m1.actions, news);
        streams_join(m.actions + added(before), news);
        assert(m.actions + added(run) =~= m.actions + added(before) + news);
        let more = write_stream(news);
        assert(all.skip(n) + more =~= (all + more).skip(n));
        assert((all + more).skip(n).skip(k) =~= (all + more).skip(n + k));
    }
}

} // verus!
