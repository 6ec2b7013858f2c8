//! What can be said in a scenario.

use crate::action::ActionView;
use crate::ascii;
use crate::duration;
use crate::laws::concatenation;
use crate::scenario::{self, Contribution, Problem};
use vstd::prelude::*;

verus! {

/// A hexadecimal digit.
pub open spec fn hex_digit(d: nat) -> u8 {
    if d < 10 {
        (ascii::DIGIT_0 + d) as u8
    } else {
        (ascii::LOWER_A + d - 10) as u8
    }
}

/// Bytes, each as a hex escape.
pub open spec fn escapes(data: Seq<u8>) -> Seq<u8>
    decreases data.len(),
{
    if data.len() == 0 {
        Seq::empty()
    } else {
        let byte = data[0] as nat;
        seq![ascii::BACKSLASH, ascii::LOWER_X, hex_digit(byte / 16), hex_digit(byte % 16)]
            + escapes(data.skip(1))
    }
}

/// A number in decimal.
pub open spec fn digits(n: nat) -> Seq<u8>
    decreases n,
{
    if n < 10 {
        seq![(ascii::DIGIT_0 + n) as u8]
    } else {
        digits(n / 10).push((ascii::DIGIT_0 + n % 10) as u8)
    }
}

/// Whether a scenario can give an action: it is one that no mock has followed yet, an error is
/// of no particular kind, a wait lasts a number of milliseconds, and numbers are machine numbers.
pub open spec fn is_expressible(a: ActionView) -> bool {
    match a {
        ActionView::Read(_) | ActionView::Write(_) | ActionView::StopChecking => true,
        ActionView::Wait(span) => span % duration::NANOS_PER_MILLI as nat == 0 && span
            / duration::NANOS_PER_MILLI as nat <= u64::MAX,
        ActionView::ReadError(error) => error == Some(scenario::other_error()),
        ActionView::WriteError(error) => error == Some(scenario::other_error()),
        ActionView::WriteShutdown(seen) => !seen,
        ActionView::ReadEof(seen) => !seen,
        ActionView::ReadZeroes(n) => n <= usize::MAX,
        ActionView::WriteZeroes(n) => n <= usize::MAX,
        ActionView::IgnoreWritten(n) => n <= usize::MAX,
    }
}

/// A command that gives an action.
pub open spec fn spelled(a: ActionView) -> Seq<u8> {
    match a {
        ActionView::Read(data) => seq![ascii::UPPER_R] + escapes(data),
        ActionView::Write(data) => seq![ascii::UPPER_W] + escapes(data),
        ActionView::Wait(span) => seq![ascii::UPPER_T] + digits(
            span / duration::NANOS_PER_MILLI as nat,
        ),
        ActionView::ReadError(_) => seq![ascii::UPPER_E, ascii::UPPER_R],
        ActionView::WriteError(_) => seq![ascii::UPPER_E, ascii::UPPER_W],
        ActionView::WriteShutdown(_) => seq![ascii::UPPER_D],
        ActionView::ReadZeroes(n) => seq![ascii::UPPER_Z, ascii::UPPER_R] + digits(n),
        ActionView::WriteZeroes(n) => seq![ascii::UPPER_Z, ascii::UPPER_W] + digits(n),
        ActionView::IgnoreWritten(n) => seq![ascii::UPPER_I] + digits(n),
        ActionView::ReadEof(_) => seq![ascii::UPPER_X],
        ActionView::StopChecking => seq![ascii::UPPER_Q],
    }
}

/// A scenario that gives a script.
pub open spec fn all_spelled(actions: Seq<ActionView>) -> Seq<u8>
    decreases actions.len(),
{
    if actions.len() == 0 {
        Seq::empty()
    } else {
        concatenation::one_behind_other(
            all_spelled(actions.drop_last()),
            spelled(actions.last()),
        )
    }
}

/// Escapes stand for the bytes that they spell.
proof fn content_of_escapes(s: Seq<u8>, i: nat, data: Seq<u8>)
    requires
        concatenation::ends_in(s, escapes(data), i),
    ensures
        scenario::content(s, i) == Ok::<(Seq<u8>, nat), Problem>((data, s.len())),
    decreases data.len(),
{
    let all = escapes(data);
    if data.len() == 0 {
        assert(data =~= Seq::empty());
    } else {
        let rest = data.skip(1);
        let byte = data[0] as nat;
        assert(all[0] == s[i as int]);
        assert(all[1] == s[i as int + 1]);
        assert(all[2] == s[i as int + 2]);
        assert(all[3] == s[i as int + 3]);
        assert forall|k: int| 0 <= k < escapes(rest).len() implies #[trigger] escapes(rest)[k]
            == s[i + 4 + k] by {
            assert(all[k + 4] == s[i + (k + 4)]);
        }
        content_of_escapes(s, i + 4, rest);
        assert(scenario::hex_value(hex_digit(byte / 16)) == Some(byte / 16));
        assert(scenario::hex_value(hex_digit(byte % 16)) == Some(byte % 16));
        assert(scenario::escape(s, i + 1) == Ok::<(u8, nat), Problem>((data[0], i + 4)));
        assert(seq![data[0]] + rest =~= data);
    }
}

/// Digits stand for the number that they spell.
proof fn number_of_digits(s: Seq<u8>, i: nat, n: nat)
    requires
        n <= u64::MAX,
        i + digits(n).len() <= s.len(),
        forall|k: int| 0 <= k < digits(n).len() ==> #[trigger] digits(n)[k] == s[i + k],
    ensures
        scenario::number(s, i, 0) == scenario::number(s, i + digits(n).len(), n),
    decreases n,
{
    let all = digits(n);
    if n < 10 {
        assert(all[0] == s[i as int]);
    } else {
        let front = digits(n / 10);
        assert forall|k: int| 0 <= k < front.len() implies #[trigger] front[k] == s[i + k] by {
            assert(all[k] == s[i + k]);
        }
        number_of_digits(s, i, n / 10);
        let last = front.len() as int;
        assert(all[last] == s[i + last]);
    }
}

/// A number that is followed by the end of the text.
proof fn number_at_end(s: Seq<u8>, i: nat, n: nat)
    requires
        n <= u64::MAX,
        concatenation::ends_in(s, digits(n), i),
    ensures
        scenario::number(s, i, 0) == Ok::<(nat, nat), Problem>((n, s.len())),
{
    number_of_digits(s, i, n);
}

/// A scenario of one command gives what the command gives.
proof fn only_command(s: Seq<u8>, given: Contribution)
    requires
        s.len() > 0,
        scenario::command(s, 0) == Ok::<(Contribution, nat), Problem>((given, s.len())),
    ensures
        scenario::parse(s) == Ok::<Contribution, Problem>(given),
{
    assert(scenario::commands(s, s.len()) == Ok::<Contribution, Problem>(scenario::nothing()));
    assert(scenario::joined(given, scenario::nothing()) =~= given);
}

/// The command gives the action.
proof fn spelled_gives(a: ActionView)
    requires
        is_expressible(a),
    ensures
        scenario::parse(spelled(a)) == Ok::<Contribution, Problem>(scenario::one(a)),
{
    let s = spelled(a);
    let given = scenario::one(a);
    match a {
        ActionView::Read(data) | ActionView::Write(data) => {
            if data.len() > 0 {
                assert(s[1] == escapes(data)[0]);
            }
            assert(scenario::skip_blanks(s, 1) == 1);
            assert(concatenation::ends_in(s, escapes(data), 1));
            content_of_escapes(s, 1, data);
        },
        ActionView::Wait(span) => {
            let n = span / duration::NANOS_PER_MILLI as nat;
            assert(concatenation::ends_in(s, digits(n), 1));
            number_at_end(s, 1, n);
        },
        ActionView::ReadZeroes(n) | ActionView::WriteZeroes(n) => {
            assert(scenario::skip_blanks(s, 1) == 1);
            assert(concatenation::ends_in(s, digits(n), 2));
            number_at_end(s, 2, n);
        },
        ActionView::IgnoreWritten(n) => {
            assert(concatenation::ends_in(s, digits(n), 1));
            number_at_end(s, 1, n);
        },
        ActionView::ReadError(_) | ActionView::WriteError(_) => {
            reveal_with_fuel(scenario::injected, 2);
            assert(scenario::injected(s, 1) == Ok::<(Seq<ActionView>, nat), Problem>(
                (seq![a], s.len()),
            )) by {
                assert(seq![a] + Seq::<ActionView>::empty() =~= seq![a]);
            }
        },
        _ => {},
    }
    only_command(s, given);
}

/// Every script can be said in a scenario: whatever actions there are to be, there is a text
/// that gives just them.
pub proof fn every_script_has_a_scenario(actions: Seq<ActionView>)
    requires
        forall|i: int| 0 <= i < actions.len() ==> is_expressible(#[trigger] actions[i]),
    ensures
        scenario::parse(all_spelled(actions)) == Ok::<Contribution, Problem>(
            Contribution { actions, name: None },
        ),
    decreases actions.len(),
{
    if actions.len() == 0 {
        assert(scenario::nothing() =~= (Contribution { actions, name: None }));
    } else {
        let before = actions.drop_last();
        assert forall|i: int| 0 <= i < before.len() implies is_expressible(#[trigger] before[i]) by {
            assert(before[i] == actions[i]);
        }
        every_script_has_a_scenario(before);
        spelled_gives(actions.last());
        concatenation::scenarios_concatenate(all_spelled(before), spelled(actions.last()));
        assert(scenario::joined(
            Contribution { actions: before, name: None },
            scenario::one(actions.last()),
        ) =~= (Contribution { actions, name: None }));
    }
}

//////////////////////////////////////////////////////////////////////////////
// Numbers
//////////////////////////////////////////////////////////////////////////////

/// A number in hexadecimal.
pub open spec fn hex_digits(n: nat) -> Seq<u8>
    decreases n,
{
    if n < 16 {
        seq![hex_digit(n)]
    } else {
        hex_digits(n / 16).push(hex_digit(n % 16))
    }
}

proof fn number_of_hex_digits(s: Seq<u8>, i: nat, n: nat)
    requires
        n <= u64::MAX,
        i + hex_digits(n).len() <= s.len(),
        forall|k: int| 0 <= k < hex_digits(n).len() ==> #[trigger] hex_digits(n)[k] == s[i + k],
    ensures
        scenario::hex_number(s, i, 0) == scenario::hex_number(s, i + hex_digits(n).len(), n),
    decreases n,
{
    let all = hex_digits(n);
    if n < 16 {
        assert(all[0] == s[i as int]);
        assert(scenario::hex_value(hex_digit(n)) == Some(n));
    } else {
        let front = hex_digits(n / 16);
        assert forall|k: int| 0 <= k < front.len() implies #[trigger] front[k] == s[i + k] by {
            assert(all[k] == s[i + k]);
        }
        number_of_hex_digits(s, i, n / 16);
        let last = front.len() as int;
        assert(all[last] == s[i + last]);
        assert(scenario::hex_value(hex_digit(n % 16)) == Some(n % 16));
    }
}

/// A number is decimal, or hexadecimal if `x` or `0x` stands before it; here it is the last
/// thing in the text `s`, and begins at place `i`.
pub proof fn numbers_are_decimal_or_hexadecimal(s: Seq<u8>, i: nat, n: nat)
    requires
        n <= u64::MAX,
    ensures
        concatenation::ends_in(s, digits(n), i) ==> scenario::number(s, i, 0) == Ok::<
            (nat, nat),
            Problem,
        >((n, s.len())),
        concatenation::ends_in(s, seq![ascii::LOWER_X] + hex_digits(n), i) ==> scenario::number(
            s,
            i,
            0,
        ) == Ok::<(nat, nat), Problem>((n, s.len())),
        concatenation::ends_in(s, seq![ascii::DIGIT_0, ascii::LOWER_X] + hex_digits(n), i)
            ==> scenario::number(s, i, 0) == Ok::<(nat, nat), Problem>((n, s.len())),
{
    let all = hex_digits(n);
    if concatenation::ends_in(s, digits(n), i) {
        number_at_end(s, i, n);
    }
    let prefixed = seq![ascii::LOWER_X] + all;
    if concatenation::ends_in(s, prefixed, i) {
        assert(prefixed[0] == s[i as int]);
        assert forall|k: int| 0 <= k < all.len() implies #[trigger] all[k] == s[i + 1 + k] by {
            assert(prefixed[k + 1] == s[i + (k + 1)]);
        }
        number_of_hex_digits(s, i + 1, n);
    }
    let prefixed = seq![ascii::DIGIT_0, ascii::LOWER_X] + all;
    if concatenation::ends_in(s, prefixed, i) {
        assert(prefixed[0] == s[i as int]);
        assert(prefixed[1] == s[i as int + 1]);
        assert forall|k: int| 0 <= k < all.len() implies #[trigger] all[k] == s[i + 2 + k] by {
            assert(prefixed[k + 2] == s[i + (k + 2)]);
        }
        number_of_hex_digits(s, i + 2, n);
        assert(scenario::number(s, i + 1, 0) == scenario::hex_number(s, i + 2, 0));
    }
}

//////////////////////////////////////////////////////////////////////////////
// Content
//////////////////////////////////////////////////////////////////////////////

/// Whether a text stands for itself: it holds no bar and no backslash, and does not begin with a
/// blank.
pub open spec fn is_literal(data: Seq<u8>) -> bool {
    &&& forall|i: int|
        0 <= i < data.len() ==> #[trigger] data[i] != ascii::BAR && data[i] != ascii::BACKSLASH
    &&& data.len() > 0 ==> !scenario::is_blank(data[0])
}

proof fn content_of_literal(s: Seq<u8>, i: nat)
    requires
        i <= s.len(),
        forall|k: int|
            i <= k < s.len() ==> #[trigger] s[k] != ascii::BAR && s[k] != ascii::BACKSLASH,
    ensures
        scenario::content(s, i) == Ok::<(Seq<u8>, nat), Problem>((s.skip(i as int), s.len())),
    decreases s.len() - i,
{
    if i < s.len() {
        content_of_literal(s, i + 1);
        assert(seq![s[i as int]] + s.skip(i as int + 1) =~= s.skip(i as int));
    } else {
        assert(s.skip(i as int) =~= Seq::empty());
    }
}

proof fn skip_blanks_reaches(s: Seq<u8>, i: nat, j: nat)
    requires
        i <= j <= s.len(),
        forall|k: int| i <= k < j ==> scenario::is_blank(#[trigger] s[k]),
        j < s.len() ==> !scenario::is_blank(s[j as int]),
    ensures
        scenario::skip_blanks(s, i) == j,
    decreases j - i,
{
    if i < j {
        assert(scenario::is_blank(s[i as int]));
        skip_blanks_reaches(s, i + 1, j);
    }
}

/// Most characters become content as they are; leading blanks are left out, trailing ones are
/// not.
pub proof fn content_is_taken_literally(blanks: Seq<u8>, data: Seq<u8>)
    requires
        forall|i: int| 0 <= i < blanks.len() ==> scenario::is_blank(#[trigger] blanks[i]),
        is_literal(data),
    ensures
        scenario::parse(seq![ascii::UPPER_R] + blanks + data) == Ok::<Contribution, Problem>(
            scenario::one(ActionView::Read(data)),
        ),
        scenario::parse(seq![ascii::UPPER_W] + blanks + data) == Ok::<Contribution, Problem>(
            scenario::one(ActionView::Write(data)),
        ),
        scenario::parse(seq![ascii::UPPER_N] + blanks + data) == Ok::<Contribution, Problem>(
            Contribution { actions: Seq::empty(), name: Some(data) },
        ),
{
    literal_command(ascii::UPPER_R, blanks, data);
    literal_command(ascii::UPPER_W, blanks, data);
    literal_command(ascii::UPPER_N, blanks, data);
    only_command(
        seq![ascii::UPPER_R] + blanks + data,
        scenario::one(ActionView::Read(data)),
    );
    only_command(
        seq![ascii::UPPER_W] + blanks + data,
        scenario::one(ActionView::Write(data)),
    );
    only_command(
        seq![ascii::UPPER_N] + blanks + data,
        Contribution { actions: Seq::empty(), name: Some(data) },
    );
}

proof fn literal_command(c: u8, blanks: Seq<u8>, data: Seq<u8>)
    requires
        forall|i: int| 0 <= i < blanks.len() ==> scenario::is_blank(#[trigger] blanks[i]),
        is_literal(data),
    ensures
        ({
            let s = seq![c] + blanks + data;
            &&& s.len() > 0
            &&& s[0] == c
            &&& scenario::content(s, scenario::skip_blanks(s, 1)) == Ok::<
                (Seq<u8>, nat),
                Problem,
            >((data, s.len()))
        }),
{
    let s = seq![c] + blanks + data;
    let j = (1 + blanks.len()) as nat;
    assert forall|k: int| 1 <= k < j implies scenario::is_blank(#[trigger] s[k]) by {
        assert(s[k] == blanks[k - 1]);
    }
    assert forall|k: int| j <= k < s.len() implies #[trigger] s[k] != ascii::BAR && s[k]
        != ascii::BACKSLASH by {
        assert(s[k] == data[k - j]);
    }
    skip_blanks_reaches(s, 1, j);
    content_of_literal(s, j);
    assert(s.skip(j as int) =~= data);
}

//////////////////////////////////////////////////////////////////////////////
// Problems
//////////////////////////////////////////////////////////////////////////////

/// Whether a problem is with a byte of the text, or with its end.
pub open spec fn points_into(s: Seq<u8>, problem: Problem) -> bool {
    &&& problem.position <= s.len()
    &&& problem.character == if problem.position < s.len() {
        Some(s[problem.position as int])
    } else {
        None
    }
}

proof fn content_points_into(s: Seq<u8>, i: nat)
    requires
        i <= s.len(),
    ensures
        scenario::content(s, i) matches Err(problem) ==> points_into(s, problem),
    decreases s.len() - i,
{
    if i < s.len() {
        content_points_into(s, i + 1);
        if let Ok((_, end)) = scenario::escape(s, i + 1) {
            content_points_into(s, end);
        }
    }
}

proof fn hex_number_points_into(s: Seq<u8>, i: nat, sum: nat)
    requires
        i <= s.len(),
    ensures
        scenario::hex_number(s, i, sum) matches Err(problem) ==> points_into(s, problem),
    decreases s.len() - i,
{
    if i < s.len() {
        hex_number_points_into(s, i + 1, sum);
        if let Some(d) = scenario::hex_value(s[i as int]) {
            hex_number_points_into(s, i + 1, 16 * sum + d);
        }
    }
}

proof fn number_points_into(s: Seq<u8>, i: nat, sum: nat)
    requires
        i <= s.len(),
    ensures
        scenario::number(s, i, sum) matches Err(problem) ==> points_into(s, problem),
    decreases s.len() - i,
{
    if i < s.len() {
        number_points_into(s, i + 1, sum);
        hex_number_points_into(s, i + 1, 0);
        if let Some(d) = scenario::decimal_value(s[i as int]) {
            number_points_into(s, i + 1, 10 * sum + d);
        }
    }
}

proof fn injected_points_into(s: Seq<u8>, i: nat)
    requires
        i <= s.len(),
    ensures
        scenario::injected(s, i) matches Err(problem) ==> points_into(s, problem),
    decreases s.len() - i,
{
    if i < s.len() {
        injected_points_into(s, i + 1);
    }
}

proof fn command_points_into(s: Seq<u8>, i: nat)
    requires
        i < s.len(),
    ensures
        scenario::command(s, i) matches Err(problem) ==> points_into(s, problem),
{
    scenario::skip_blanks_ends(s, i + 1);
    let j = scenario::skip_blanks(s, i + 1);
    content_points_into(s, j);
    injected_points_into(s, i + 1);
    number_points_into(s, i + 1, 0);
    if j < s.len() {
        number_points_into(s, j + 1, 0);
    }
}

proof fn commands_point_into(s: Seq<u8>, i: nat)
    requires
        i <= s.len(),
    ensures
        scenario::commands(s, i) matches Err(problem) ==> points_into(s, problem),
    decreases s.len() - i,
{
    if i < s.len() {
        command_points_into(s, i);
        scenario::command_ends_behind(s, i);
        if let Ok((_, end)) = scenario::command(s, i) {
            commands_point_into(s, end);
        }
    }
}

/// A text that is no scenario has a byte that was not expected, which the problem tells with its
/// place, or else it is the end of the text that was not expected.
pub proof fn problem_points_into_the_text(s: Seq<u8>)
    ensures
        scenario::parse(s) matches Err(problem) ==> points_into(s, problem),
{
    commands_point_into(s, 0);
}

} // verus!
