//! What a mock has to say.

use crate::action::ActionView;
use crate::laws::advancing;
use crate::laws::conformance;
use crate::laws::endings;
use crate::laws::grammar;
use crate::laws::reads;
use crate::laws::shutdowns;
use crate::laws::writes;
use crate::outcome::{MockOutcome, MockOutcomeError};
use crate::script::{self, EventView, FailureView, IncomingView, State, StepView};
use crate::text;
use crate::text_scenario::ParseError;
use vstd::prelude::*;

verus! {

//////////////////////////////////////////////////////////////////////////////
// Numbers and bytes
//////////////////////////////////////////////////////////////////////////////

/// The number that a text of decimal digits stands for.
pub open spec fn number_in(t: Seq<char>) -> int
    decreases t.len(),
{
    if t.len() == 0 {
        0
    } else {
        10 * number_in(t.drop_last()) + (t.last() as int - '0' as int)
    }
}

proof fn digit_is_a_digit(d: nat)
    requires
        d < 10,
    ensures
        text::digit(d).len() == 1,
        text::digit(d)[0] as int == '0' as int + d,
{
    reveal_strlit("0");
    reveal_strlit("1");
    reveal_strlit("2");
    reveal_strlit("3");
    reveal_strlit("4");
    reveal_strlit("5");
    reveal_strlit("6");
    reveal_strlit("7");
    reveal_strlit("8");
    reveal_strlit("9");
}

/// A number is written in decimal digits, from which it can be read back, and with no zero before
/// others.
pub proof fn decimal_is_read_back(n: nat)
    ensures
        ({
            let t = text::decimal(n);
            &&& number_in(t) == n
            &&& t.len() > 0
            &&& t.len() > 1 ==> t[0] != '0'
            &&& n > 0 ==> t[0] != '0'
            &&& forall|k: int| 0 <= k < t.len() ==> '0' as int <= #[trigger] t[k] as int <= '9' as int
        }),
    decreases n,
{
    let t = text::decimal(n);
    if n < 10 {
        digit_is_a_digit(n);
        assert(t.drop_last() =~= Seq::empty());
        assert(number_in(Seq::empty()) == 0);
        assert(t.last() == t[0]);
    } else {
        digit_is_a_digit(n % 10);
        decimal_is_read_back(n / 10);
        let front = text::decimal(n / 10);
        assert(t.drop_last() =~= front);
        assert(t.last() == text::digit(n % 10)[0]);
        assert(number_in(t) == 10 * number_in(front) + n % 10);
        assert(t[0] == front[0]);
        assert forall|k: int| 0 <= k < t.len() implies '0' as int <= #[trigger] t[k] as int
            <= '9' as int by {
            if k < front.len() {
                assert(t[k] == front[k]);
            } else {
                assert(t[k] == text::digit(n % 10)[0]);
            }
        }
    }
}

proof fn hex_digit_is_a_digit(d: nat)
    requires
        d < 16,
    ensures
        text::hex_digit(d).len() == 1,
        grammar::digit(text::hex_digit(d)[0] as u8) == d,
        !('A' as int <= text::hex_digit(d)[0] as int <= 'Z' as int),
{
    if d < 10 {
        digit_is_a_digit(d);
    }
    reveal_strlit("a");
    reveal_strlit("b");
    reveal_strlit("c");
    reveal_strlit("d");
    reveal_strlit("e");
    reveal_strlit("f");
}

/// A byte that cannot be printed is shown as an escape: a tab, a line feed and a carriage return
/// by name, and any other by its two hexadecimal digits. Quotes and backslashes stand behind a
/// backslash, and other bytes for themselves.
pub proof fn bytes_are_shown(b: u8)
    ensures
        ({
            let t = text::escaped_byte(b);
            if b == grammar::byte('\t') {
                t == seq!['\\', 't']
            } else if b == grammar::byte('\n') {
                t == seq!['\\', 'n']
            } else if b == grammar::byte('\r') {
                t == seq!['\\', 'r']
            } else if b == grammar::byte('"') || b == grammar::byte('\'') || b == grammar::byte(
                '\\',
            ) {
                t == seq!['\\', b as char]
            } else if grammar::byte(' ') <= b <= grammar::byte('~') {
                t == seq![b as char]
            } else {
                &&& t.len() == 4
                &&& t[0] == '\\'
                &&& t[1] == 'x'
                &&& b == 16 * grammar::digit(t[2] as u8) + grammar::digit(t[3] as u8)
                &&& !('A' as int <= t[2] as int <= 'Z' as int)
                &&& !('A' as int <= t[3] as int <= 'Z' as int)
            }
        }),
{
    reveal_strlit("\\t");
    reveal_strlit("\\n");
    reveal_strlit("\\r");
    reveal_strlit("\\x");
    reveal_strlit("\\");
    hex_digit_is_a_digit((b / 16) as nat);
    hex_digit_is_a_digit((b % 16) as nat);
}

//////////////////////////////////////////////////////////////////////////////
// Reports and problems
//////////////////////////////////////////////////////////////////////////////

/// A report says whether it is a success, what was wrong if it is none, and how many bytes were
/// read and written.
pub proof fn report_says_all(report: MockOutcome)
    ensures
        report.text() == match report.outcome {
            Ok(_) => "success after reading "@,
            Err(error) => "error ("@ + error.text() + ") after reading "@,
        } + text::decimal(report.total_read_bytes as nat) + " and writing "@ + text::decimal(
            report.total_written_bytes as nat,
        ) + " bytes"@,
{
}

/// An error says what was wrong, and which byte came for which.
pub proof fn error_says_all(error: MockOutcomeError)
    ensures
        error.text() == match error {
            MockOutcomeError::UnexpectedWrite => "unexpected write"@,
            MockOutcomeError::WriteInsteadOfShutdown => "write where shutdown was expected"@,
            MockOutcomeError::ShutdownInsteadOfWrite => "shutdown where a write was expected"@,
            MockOutcomeError::WrittenByteMismatch { expected, actual } => {
                "mismatching byte, expected "@ + text::decimal(expected as nat) + ", got "@
                    + text::decimal(actual as nat)
            },
            MockOutcomeError::RemainingUnreadData => "data remains to be read"@,
            MockOutcomeError::RemainingUnwrittenData => "data remains to be written"@,
            MockOutcomeError::Other => "other error"@,
        },
{
}

/// A problem with a scenario says what is unexpected, where it is, and what was looked for.
pub proof fn problem_says_all(error: ParseError)
    ensures
        error.text() == match error.chararter {
            Some(b) => "Unexpected character `"@ + text::escaped_byte(b) + "` at position "@
                + text::decimal(error.position as nat) + " while "@ + error.state@,
            None => "Unexpected EOF while "@ + error.state@,
        },
{
}

//////////////////////////////////////////////////////////////////////////////
// Panics
//////////////////////////////////////////////////////////////////////////////

/// The state of a mock as its messages tell it: its name if it has one, how many actions are left,
/// and how many bytes were read and written.
pub open spec fn described(m: State) -> Seq<char> {
    (if m.name.len() == 0 {
        "("@
    } else {
        "(name "@ + m.name + ", "@
    }) + text::decimal(m.actions.len()) + " actions remain, "@ + text::decimal(m.read_bytes)
        + " bytes was read, "@ + text::decimal(m.written_bytes) + " bytes was written)"@
}

/// How many bytes were read and written.
pub open spec fn counts(m: State) -> Seq<char> {
    "r="@ + text::decimal(m.read_bytes) + " w="@ + text::decimal(m.written_bytes)
}

/// How many actions are left from place `j` on.
pub open spec fn left_from(m: State, j: int) -> Seq<char> {
    " remaining actions: "@ + text::decimal((m.actions.len() - j) as nat)
}

/// A panic that is about the script.
pub open spec fn script_panic<V>(message: Seq<char>) -> StepView<V> {
    StepView::Panic(FailureView::Script { message })
}

/// A mock is described in its messages, and by its name for debugging.
pub proof fn mock_describes_itself(m: State)
    ensures
        script::summary(m) == described(m),
        script::debug_text(m) == if m.name.len() == 0 {
            "Inner {...}"@
        } else {
            "Inner {name="@ + m.name + ", ...}"@
        },
{
}

/// A write that is unexpected panics with a description of the mock.
pub proof fn unexpected_write_says_so(m: State, event: EventView, src: Seq<u8>, now: nat)
    requires
        m.checks_enabled,
        !m.armed,
        event == EventView::Opening(IncomingView::Closed) || event == EventView::Incoming(
            IncomingView::Closed,
        ),
    ensures
        script::write_turn(m, event, src, now) == (
            m,
            script_panic::<usize>("unexpected write "@ + described(m)),
        ),
{
}

/// A write that is told to block, and for which there is no wait, panics with a description of the
/// mock.
pub proof fn unexpected_block_says_so(m: State, src: Seq<u8>, now: nat)
    requires
        m.actions.len() > 0,
        ({
            let m1 = script::advance(m, now);
            let m2 = script::advance(
                reads::with_action(m1, 0, ActionView::WriteError(None)),
                now,
            );
            &&& m1.actions.len() > 0
            &&& m1.actions[0] matches ActionView::WriteError(Some(error))
            &&& error.kind is WouldBlock
            &&& m2.actions.len() > 0 ==> !(m2.actions[0] is Wait)
            &&& m2.checks_enabled
            &&& !m2.armed
        }),
    ensures
        ({
            let m1 = script::advance(m, now);
            let m2 = script::advance(
                reads::with_action(m1, 0, ActionView::WriteError(None)),
                now,
            );
            script::poll_write(m, src, now) == (
                m2,
                script_panic::<usize>("unexpected WouldBlock "@ + described(m2)),
            )
        }),
{
}

/// What a mock begins its last panic with, by what is left over.
pub open spec fn last_words(a: ActionView) -> Seq<char> {
    match a {
        ActionView::Read(_) | ActionView::ReadZeroes(_) => "There is still data left to read. "@,
        ActionView::ReadEof(_) => "There is still a read EOF event that was not observed "@,
        ActionView::Write(_) | ActionView::WriteZeroes(_) => {
            "There is still data left to write. "@
        },
        _ => "There is still data left to write (even though content is to be ignored). "@,
    }
}

proof fn first_left_over_is_first(actions: Seq<ActionView>, from: nat, k: nat)
    requires
        from <= k < actions.len(),
        endings::complaint(actions[k as int]) is Some,
        forall|i: int| 0 <= i < k ==> endings::complaint(#[trigger] actions[i]) is None,
    ensures
        script::first_left_over(actions, from) == Some(k),
    decreases k - from,
{
    endings::left_over_is_complained_of(actions[from as int]);
    if from < k {
        assert(endings::complaint(actions[from as int]) is None);
        first_left_over_is_first(actions, from + 1, k);
    }
}

/// A mock that ends with something left over panics with what is first left over and a description
/// of the mock.
pub proof fn end_says_what_is_left(m: State, k: nat)
    requires
        endings::still_objects(m),
        !m.armed,
        k < m.actions.len(),
        endings::complaint(m.actions[k as int]) is Some,
        forall|i: int| 0 <= i < k ==> endings::complaint(#[trigger] m.actions[i]) is None,
    ensures
        script::finish(m, false) == (
            m,
            Err::<(), FailureView>(
                FailureView::Script { message: last_words(m.actions[k as int]) + described(m) },
            ),
        ),
{
    endings::over_if_reached(m.actions);
    first_left_over_is_first(m.actions, 0, k);
    endings::left_over_is_complained_of(m.actions[k as int]);
}

/// A shutdown that comes before a write panics with the name, the counts and how many actions are
/// left from that write on.
pub proof fn early_shutdown_says_so(m: State, now: nat) -> (j: int)
    requires
        m.shutdown_checking_enabled,
        script::poll_shutdown(m, now).1 is Panic,
        ({
            let m1 = script::advance(m, now);
            m1.actions.len() > 0 ==> !(m1.actions[0] is Wait)
        }),
    ensures
        ({
            let m1 = script::advance(m, now);
            &&& shutdowns::stops_at(m1, 0, j, m1.checks_enabled)
            &&& script::poll_shutdown(m, now).1 == script_panic::<()>(
                "Unexpected shutdown (there are more pending write actions) name="@ + m.name
                    + " "@ + counts(m) + left_from(m1, j),
            )
        }),
{
    let m1 = script::advance(m, now);
    advancing::advance_keeps(m, now);
    let j = shutdowns::scan_stops(m1, 0, m1.checks_enabled);
    shutdowns::shutdown_looks_from(m1, 0, j as nat, m1.checks_enabled);
    j
}

/// A read that comes where a shutdown is expected panics with the counts, the name and how many
/// actions are left.
pub proof fn read_instead_of_shutdown_says_so(m: State, room: nat, now: nat)
    requires
        ({
            let m1 = script::advance(m, now);
            &&& m1.actions.len() > 0
            &&& m1.actions[0] is WriteShutdown
            &&& m1.shutdown_checking_enabled
            &&& m1.checks_enabled
            &&& !m1.armed
        }),
    ensures
        ({
            let m1 = script::advance(m, now);
            script::poll_read(m, room, now) == (
                m1,
                script_panic::<Seq<u8>>(
                    "unexpected read (a shutdown was expected) "@ + counts(m1) + " name="@
                        + m1.name + left_from(m1, 0),
                ),
            )
        }),
{
    advancing::advance_is_idempotent(m, now);
}

/// A write that comes where a shutdown is expected panics with the counts, the name and how many
/// actions are left from the shutdown on.
pub proof fn write_instead_of_shutdown_says_so(m: State, src: Seq<u8>, now: nat, j: nat)
    requires
        ({
            let m1 = script::advance(m, now);
            &&& j < m1.actions.len()
            &&& m1.actions[j as int] is WriteShutdown
            &&& forall|k: int|
                0 <= k < j ==> shutdowns::is_for_reader(#[trigger] m1.actions[k])
            &&& m1.checks_enabled
            &&& !m1.armed
        }),
    ensures
        ({
            let m1 = script::advance(m, now);
            script::poll_write(m, src, now) == (
                m1,
                script_panic::<usize>(
                    "unexpected write (a shutdown was expected) "@ + counts(m1) + " name="@
                        + m1.name + left_from(m1, j as int),
                ),
            )
        }),
{
    let m1 = script::advance(m, now);
    advancing::advance_keeps(m, now);
    if j > 0 {
        assert(shutdowns::is_for_reader(m1.actions[0]));
    }
    assert forall|n: int| 0 <= n < j implies writes::is_looked_past(
        #[trigger] m1.actions[n],
        src,
    ) by {
        assert(shutdowns::is_for_reader(m1.actions[n]));
    }
    writes::write_looks_past(m1, 0, j, src, true);
    assert forall|n: int| 0 <= n < j implies !(#[trigger] m1.actions[n] is StopChecking) by {
        assert(shutdowns::is_for_reader(m1.actions[n]));
    }
}

/// A write that departs from a buffer panics with the bytes of the buffer that it was held against
/// and the bytes that came, and one that departs from zeroes with the first byte that is none.
pub proof fn departing_write_says_so(m: State, src: Seq<u8>, now: nat, j: nat, k: nat)
    requires
        ({
            let m1 = script::advance(m, now);
            &&& j < m1.actions.len()
            &&& forall|i: int|
                0 <= i < j ==> shutdowns::is_for_reader(#[trigger] m1.actions[i])
            &&& m1.checks_enabled
            &&& !m1.armed
            &&& match m1.actions[j as int] {
                ActionView::Write(data) => {
                    &&& k < data.len()
                    &&& k < src.len()
                    &&& data[k as int] != src[k as int]
                    &&& forall|i: int| 0 <= i < k ==> #[trigger] data[i] == src[i]
                },
                ActionView::WriteZeroes(n) => {
                    &&& k < n
                    &&& k < src.len()
                    &&& src[k as int] != 0
                    &&& forall|i: int| 0 <= i < k ==> #[trigger] src[i] == 0
                },
                _ => false,
            }
        }),
    ensures
        ({
            let m1 = script::advance(m, now);
            let (m2, step) = script::poll_write(m, src, now);
            &&& m2 == m1
            &&& step == StepView::<usize>::Panic(
                match m1.actions[j as int] {
                    ActionView::Write(data) => {
                        let n = conformance::smaller(src.len(), data.len());
                        FailureView::Bytes {
                            expected: data.take(n as int),
                            actual: src.take(n as int),
                            message: "name="@ + m.name + " "@ + counts(m) + left_from(
                                m1,
                                j as int,
                            ),
                        }
                    },
                    _ => FailureView::NonZero {
                        byte: src[k as int],
                        message: "byte_index="@ + text::decimal(k) + " "@ + counts(
                            State { written_bytes: m.written_bytes + k + 1, ..m },
                        ) + " name="@ + m.name + left_from(m1, j as int),
                    },
                },
            )
        }),
{
    let m1 = script::advance(m, now);
    advancing::advance_keeps(m, now);
    if j > 0 {
        assert(shutdowns::is_for_reader(m1.actions[0]));
    }
    assert forall|n: int| 0 <= n < j implies writes::is_looked_past(
        #[trigger] m1.actions[n],
        src,
    ) by {
        assert(shutdowns::is_for_reader(m1.actions[n]));
    }
    writes::write_looks_past(m1, 0, j, src, true);
    assert forall|n: int| 0 <= n < j implies !(#[trigger] m1.actions[n] is StopChecking) by {
        assert(shutdowns::is_for_reader(m1.actions[n]));
    }
    let a = m1.actions[j as int];
    let n = script::min(src.len(), script::capacity(a));
    assert forall|i: int| 0 <= i < k implies script::fits(
        script::expected(a, i),
        #[trigger] src[i],
    ) by {
        if let ActionView::Write(data) = a {
            assert(data[i] == src[i]);
        }
    }
    conformance::mismatch_at(a, src, 0, n, k);
}

} // verus!
