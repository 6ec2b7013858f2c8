//! What a text scenario means.

use crate::action::ActionView;
use crate::ascii;
use crate::duration;
use vstd::prelude::*;

verus! {

/// Why a text is no scenario.
#[verifier::ext_equal]
pub struct Problem {
    /// The place of the unexpected byte, or the length of the text.
    pub position: nat,
    /// The unexpected byte; `None` if it is the end of the text that is unexpected.
    pub character: Option<u8>,
    /// What was looked for.
    pub state: Seq<char>,
}

/// The problem with the byte at place `i`, or with the end of the text.
pub open spec fn unexpected(s: Seq<u8>, i: nat, state: Seq<char>) -> Problem {
    Problem {
        position: i,
        character: if i < s.len() {
            Some(s[i as int])
        } else {
            None
        },
        state,
    }
}

/// Space, tab or line feed.
pub open spec fn is_blank(b: u8) -> bool {
    b == ascii::SPACE || b == ascii::TAB || b == ascii::LINE_FEED
}

/// The place of the first byte from `i` on that is not blank.
pub open spec fn skip_blanks(s: Seq<u8>, i: nat) -> nat
    decreases s.len() - i,
{
    if i < s.len() && is_blank(s[i as int]) {
        skip_blanks(s, i + 1)
    } else {
        i
    }
}

/// The value of a decimal digit.
pub open spec fn decimal_value(b: u8) -> Option<nat> {
    if ascii::DIGIT_0 <= b <= ascii::DIGIT_9 {
        Some((b - ascii::DIGIT_0) as nat)
    } else {
        None
    }
}

/// The value of a hexadecimal digit.
pub open spec fn hex_value(b: u8) -> Option<nat> {
    if ascii::DIGIT_0 <= b <= ascii::DIGIT_9 {
        Some((b - ascii::DIGIT_0) as nat)
    } else if ascii::UPPER_A <= b <= ascii::UPPER_F {
        Some((b - ascii::UPPER_A + 10) as nat)
    } else if ascii::LOWER_A <= b <= ascii::LOWER_F {
        Some((b - ascii::LOWER_A + 10) as nat)
    } else {
        None
    }
}

/// The byte that two hexadecimal digits stand for.
pub open spec fn hex_pair(high: u8, low: u8) -> Option<u8> {
    if hex_value(high) is Some && hex_value(low) is Some {
        Some((16 * hex_value(high)->0 + hex_value(low)->0) as u8)
    } else {
        None
    }
}

/// The byte that a byte after a backslash stands for, but for the `x` of a hex escape.
pub open spec fn escaped(b: u8) -> u8 {
    if b == ascii::LOWER_N {
        ascii::LINE_FEED
    } else if b == ascii::LOWER_R {
        ascii::CARRIAGE_RETURN
    } else if b == ascii::DIGIT_0 {
        ascii::NUL
    } else if b == ascii::LOWER_T {
        ascii::TAB
    } else {
        b
    }
}

/// The escape whose backslash stands just before place `i`: the byte that it stands for, and
/// the place behind it.
pub open spec fn escape(s: Seq<u8>, i: nat) -> Result<(u8, nat), Problem> {
    if i >= s.len() {
        Err(unexpected(s, i, "interpreting a character after `\\`"@))
    } else if s[i as int] != ascii::LOWER_X {
        Ok((escaped(s[i as int]), i + 1))
    } else if i + 1 >= s.len() || hex_value(s[(i + 1) as int]) is None {
        Err(unexpected(s, i + 1, "interpreting a hex escape, first letter"@))
    } else if i + 2 >= s.len() || hex_value(s[(i + 2) as int]) is None {
        Err(unexpected(s, i + 2, "interpreting a hex escape, second letter"@))
    } else {
        Ok((hex_pair(s[(i + 1) as int], s[(i + 2) as int])->0, i + 3))
    }
}

/// A scan whose value begins with `first`.
pub open spec fn prefixed<T>(first: Seq<T>, scan: Result<(Seq<T>, nat), Problem>) -> Result<
    (Seq<T>, nat),
    Problem,
> {
    match scan {
        Ok((rest, end)) => Ok((first + rest, end)),
        Err(problem) => Err(problem),
    }
}

/// The bytes from place `i` up to the next `|` that is not escaped, or to the end of the text,
/// with their escapes resolved, and the place behind them.
pub open spec fn content(s: Seq<u8>, i: nat) -> Result<(Seq<u8>, nat), Problem>
    decreases s.len() - i,
{
    if i >= s.len() {
        Ok((Seq::empty(), i))
    } else if s[i as int] == ascii::BAR {
        Ok((Seq::empty(), i + 1))
    } else if s[i as int] == ascii::BACKSLASH {
        match escape(s, i + 1) {
            Ok((byte, end)) => prefixed(seq![byte], content(s, end)),
            Err(problem) => Err(problem),
        }
    } else {
        prefixed(seq![s[i as int]], content(s, i + 1))
    }
}

/// The hexadecimal number that goes on at place `i`, up to the next `|` or the end of the text,
/// if its digits so far give `sum`. Blanks may stand between the digits.
pub open spec fn hex_number(s: Seq<u8>, i: nat, sum: nat) -> Result<(nat, nat), Problem>
    decreases s.len() - i,
{
    if i >= s.len() {
        Ok((sum, i))
    } else if s[i as int] == ascii::BAR {
        Ok((sum, i + 1))
    } else if is_blank(s[i as int]) {
        hex_number(s, i + 1, sum)
    } else {
        match hex_value(s[i as int]) {
            Some(d) => if 16 * sum + d <= u64::MAX {
                hex_number(s, i + 1, 16 * sum + d)
            } else {
                Err(unexpected(s, i, "continuing a hex number (which overflowed)"@))
            },
            None => Err(unexpected(s, i, "continuing a hexadecimal number"@)),
        }
    }
}

/// The number that goes on at place `i`, up to the next `|` or the end of the text, if its
/// digits so far give `sum`: it is decimal, unless an `x` follows on nothing but zeroes. Blanks
/// may stand between the digits.
pub open spec fn number(s: Seq<u8>, i: nat, sum: nat) -> Result<(nat, nat), Problem>
    decreases s.len() - i,
{
    if i >= s.len() {
        Ok((sum, i))
    } else if s[i as int] == ascii::BAR {
        Ok((sum, i + 1))
    } else if is_blank(s[i as int]) {
        number(s, i + 1, sum)
    } else {
        match decimal_value(s[i as int]) {
            Some(d) => if 10 * sum + d <= u64::MAX {
                number(s, i + 1, 10 * sum + d)
            } else {
                Err(unexpected(s, i, "continuing a decimal number (which overflowed)"@))
            },
            None => if sum > 0 {
                Err(unexpected(s, i, "continuing a decimal number"@))
            } else if s[i as int] == ascii::LOWER_X || s[i as int] == ascii::UPPER_X {
                hex_number(s, i + 1, 0)
            } else {
                Err(unexpected(s, i, "waiting for a number"@))
            },
        }
    }
}

/// The errors to inject that are listed from place `i` up to the next `|` or the end of the
/// text: an `R` is one for the reader, a `W` one for the writer.
pub open spec fn injected(s: Seq<u8>, i: nat) -> Result<(Seq<ActionView>, nat), Problem>
    decreases s.len() - i,
{
    if i >= s.len() {
        Ok((Seq::empty(), i))
    } else if s[i as int] == ascii::BAR {
        Ok((Seq::empty(), i + 1))
    } else if is_blank(s[i as int]) {
        injected(s, i + 1)
    } else if s[i as int] == ascii::UPPER_R || s[i as int] == ascii::LOWER_R {
        prefixed(seq![ActionView::ReadError(Some(other_error()))], injected(s, i + 1))
    } else if s[i as int] == ascii::UPPER_W || s[i as int] == ascii::LOWER_W {
        prefixed(seq![ActionView::WriteError(Some(other_error()))], injected(s, i + 1))
    } else {
        Err(
            unexpected(
                s,
                i,
                "waiting for R or W character to choose which error to inject"@,
            ),
        )
    }
}

/// The error that a scenario injects.
pub open spec fn other_error() -> crate::error::IoError {
    crate::script::plain_error(crate::error::ErrorKind::Other)
}

/// What a command contributes.
#[verifier::ext_equal]
pub struct Contribution {
    /// Actions for the script.
    pub actions: Seq<ActionView>,
    /// The bytes of a name for the mock.
    pub name: Option<Seq<u8>>,
}

pub open spec fn nothing() -> Contribution {
    Contribution { actions: Seq::empty(), name: None }
}

pub open spec fn one(a: ActionView) -> Contribution {
    Contribution { actions: seq![a], name: None }
}

/// What is left of a counted number of bytes in a `usize`.
pub open spec fn count(n: nat) -> nat {
    (n as u64 as usize) as nat
}

/// The command of zero bytes whose `Z` stands just before place `i`.
pub open spec fn zero_command(s: Seq<u8>, i: nat) -> Result<(Contribution, nat), Problem> {
    let j = skip_blanks(s, i);
    if j < s.len() && (s[j as int] == ascii::UPPER_R || s[j as int] == ascii::LOWER_R) {
        match number(s, j + 1, 0) {
            Ok((n, end)) => Ok((one(ActionView::ReadZeroes(count(n))), end)),
            Err(problem) => Err(problem),
        }
    } else if j < s.len() && (s[j as int] == ascii::UPPER_W || s[j as int] == ascii::LOWER_W) {
        match number(s, j + 1, 0) {
            Ok((n, end)) => Ok((one(ActionView::WriteZeroes(count(n))), end)),
            Err(problem) => Err(problem),
        }
    } else {
        Err(unexpected(s, j, "waiting for a subcommand character ater `Z`"@))
    }
}

/// The command at place `i`, which is not the end of the text, and the place behind it. A blank
/// and a `|` are commands that contribute nothing.
pub open spec fn command(s: Seq<u8>, i: nat) -> Result<(Contribution, nat), Problem> {
    let c = s[i as int];
    if is_blank(c) || c == ascii::BAR {
        Ok((nothing(), i + 1))
    } else if c == ascii::UPPER_R || c == ascii::LOWER_R {
        match content(s, skip_blanks(s, i + 1)) {
            Ok((data, end)) => Ok((one(ActionView::Read(data)), end)),
            Err(problem) => Err(problem),
        }
    } else if c == ascii::UPPER_W || c == ascii::LOWER_W {
        match content(s, skip_blanks(s, i + 1)) {
            Ok((data, end)) => Ok((one(ActionView::Write(data)), end)),
            Err(problem) => Err(problem),
        }
    } else if c == ascii::UPPER_N || c == ascii::LOWER_N {
        match content(s, skip_blanks(s, i + 1)) {
            Ok((data, end)) => Ok((Contribution { name: Some(data), ..nothing() }, end)),
            Err(problem) => Err(problem),
        }
    } else if c == ascii::UPPER_E {
        match injected(s, i + 1) {
            Ok((actions, end)) => Ok((Contribution { actions, ..nothing() }, end)),
            Err(problem) => Err(problem),
        }
    } else if c == ascii::UPPER_T {
        match number(s, i + 1, 0) {
            Ok((n, end)) => Ok((one(ActionView::Wait(n * duration::NANOS_PER_MILLI as nat)), end)),
            Err(problem) => Err(problem),
        }
    } else if c == ascii::UPPER_I || c == ascii::LOWER_I {
        match number(s, i + 1, 0) {
            Ok((n, end)) => Ok((one(ActionView::IgnoreWritten(count(n))), end)),
            Err(problem) => Err(problem),
        }
    } else if c == ascii::UPPER_Z || c == ascii::LOWER_Z {
        zero_command(s, i + 1)
    } else if c == ascii::UPPER_X || c == ascii::LOWER_X {
        Ok((one(ActionView::ReadEof(false)), i + 1))
    } else if c == ascii::UPPER_Q || c == ascii::LOWER_Q {
        Ok((one(ActionView::StopChecking), i + 1))
    } else if c == ascii::UPPER_D {
        Ok((one(ActionView::WriteShutdown(false)), i + 1))
    } else {
        Err(unexpected(s, i, "waiting for a command character"@))
    }
}

/// What two parts of a scenario contribute together: of two names the later one counts.
pub open spec fn joined(first: Contribution, second: Contribution) -> Contribution {
    Contribution {
        actions: first.actions + second.actions,
        name: if second.name is Some {
            second.name
        } else {
            first.name
        },
    }
}

/// What the scenario contributes from place `i` on.
pub open spec fn commands(s: Seq<u8>, i: nat) -> Result<Contribution, Problem>
    decreases s.len() - i,
{
    if i >= s.len() {
        Ok(nothing())
    } else {
        proof {
            command_ends_behind(s, i);
        }
        match command(s, i) {
            Ok((first, end)) => match commands(s, end) {
                Ok(rest) => Ok(joined(first, rest)),
                Err(problem) => Err(problem),
            },
            Err(problem) => Err(problem),
        }
    }
}

/// What a scenario contributes.
pub open spec fn parse(s: Seq<u8>) -> Result<Contribution, Problem> {
    commands(s, 0)
}

//////////////////////////////////////////////////////////////////////////////
// Scans end inside the text, and not before they begin
//////////////////////////////////////////////////////////////////////////////

pub proof fn skip_blanks_ends(s: Seq<u8>, i: nat)
    requires
        i <= s.len(),
    ensures
        i <= skip_blanks(s, i) <= s.len(),
    decreases s.len() - i,
{
    if i < s.len() && is_blank(s[i as int]) {
        skip_blanks_ends(s, i + 1);
    }
}

pub proof fn content_ends(s: Seq<u8>, i: nat)
    requires
        i <= s.len(),
    ensures
        content(s, i) matches Ok((_, end)) ==> i <= end <= s.len(),
    decreases s.len() - i,
{
    if i < s.len() && s[i as int] != ascii::BAR {
        if s[i as int] == ascii::BACKSLASH {
            if escape(s, i + 1) is Ok {
                content_ends(s, escape(s, i + 1)->Ok_0.1);
            }
        } else {
            content_ends(s, i + 1);
        }
    }
}

pub proof fn hex_number_ends(s: Seq<u8>, i: nat, sum: nat)
    requires
        i <= s.len(),
        sum <= u64::MAX,
    ensures
        hex_number(s, i, sum) matches Ok((n, end)) ==> i <= end <= s.len() && n <= u64::MAX,
    decreases s.len() - i,
{
    if i < s.len() {
        hex_number_ends(s, i + 1, sum);
        if let Some(d) = hex_value(s[i as int]) {
            if 16 * sum + d <= u64::MAX {
                hex_number_ends(s, i + 1, 16 * sum + d);
            }
        }
    }
}

pub proof fn number_ends(s: Seq<u8>, i: nat, sum: nat)
    requires
        i <= s.len(),
        sum <= u64::MAX,
    ensures
        number(s, i, sum) matches Ok((n, end)) ==> i <= end <= s.len() && n <= u64::MAX,
    decreases s.len() - i,
{
    if i < s.len() {
        number_ends(s, i + 1, sum);
        hex_number_ends(s, i + 1, 0);
        if let Some(d) = decimal_value(s[i as int]) {
            if 10 * sum + d <= u64::MAX {
                number_ends(s, i + 1, 10 * sum + d);
            }
        }
    }
}

pub proof fn injected_ends(s: Seq<u8>, i: nat)
    requires
        i <= s.len(),
    ensures
        injected(s, i) matches Ok((_, end)) ==> i <= end <= s.len(),
    decreases s.len() - i,
{
    if i < s.len() {
        injected_ends(s, i + 1);
    }
}

/// A command takes up at least one byte, and ends inside the text.
pub proof fn command_ends_behind(s: Seq<u8>, i: nat)
    requires
        i < s.len(),
    ensures
        command(s, i) matches Ok((_, end)) ==> i < end <= s.len(),
{
    skip_blanks_ends(s, i + 1);
    let j = skip_blanks(s, i + 1);
    content_ends(s, j);
    injected_ends(s, i + 1);
    number_ends(s, i + 1, 0);
    if j < s.len() {
        number_ends(s, j + 1, 0);
    }
}

} // verus!
