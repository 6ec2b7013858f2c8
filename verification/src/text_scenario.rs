//! Scripts written as text.

use crate::action::{self, Action, ActionView};
use crate::ascii;
use crate::duration::Duration;
use crate::error::{ErrorKind, IoError};
use crate::scenario::{self, Contribution, Problem};
use crate::text;
use vstd::prelude::*;
use vstd::string::*;
use vstd::utf8::*;

verus! {

/// Why a text is no scenario.
#[derive(Clone, Copy, Debug)]
pub struct ParseError {
    /// The place of the unexpected byte, or the length of the text.
    pub position: usize,
    /// Character that was not expected, or None if EOF was not expected.
    pub chararter: Option<u8>,
    /// What was looked for.
    pub state: &'static str,
}

impl View for ParseError {
    type V = Problem;

    open spec fn view(&self) -> Problem {
        Problem {
            position: self.position as nat,
            character: self.chararter,
            state: self.state@,
        }
    }
}

impl ParseError {
    /// The text of the error.
    pub open spec fn text(self) -> Seq<char> {
        match self.chararter {
            Some(byte) => "Unexpected character `"@ + text::escaped_byte(byte)
                + "` at position "@ + text::decimal(self.position as nat) + " while "@
                + self.state@,
            None => "Unexpected EOF while "@ + self.state@,
        }
    }

    /// Writes the error out.
    pub fn describe(&self) -> (message: String)
        ensures
            message@ == self.text(),
    {
        match self.chararter {
            Some(byte) => {
                let mut message = "Unexpected character `".to_owned();
                text::append_escaped_byte(&mut message, byte);
                message.append("` at position ");
                text::append_decimal(&mut message, self.position as u64);
                message.append(" while ");
                message.append(self.state);
                message
            },
            None => {
                let mut message = "Unexpected EOF while ".to_owned();
                message.append(self.state);
                message
            },
        }
    }
}

/// The byte that two hexadecimal digits stand for, by `hex::decode_to_slice` on the two digits:
/// it takes digits in either case, the first being the higher one, and refuses anything else.
#[verifier::external_body]
fn decode_hex(high: u8, low: u8) -> (byte: Option<u8>)
    ensures
        byte == scenario::hex_pair(high, low),
{
    let mut out = [0u8; 1];
    match hex::decode_to_slice([high, low], &mut out) {
        Ok(()) => Some(out[0]),
        Err(_) => None,
    }
}

/// The text that `String::from_utf8_lossy` makes of bytes.
pub uninterp spec fn lossy_text(bytes: Seq<u8>) -> Seq<char>;

/// Bytes as text, by `String::from_utf8_lossy`: the text that they encode, if they are valid
/// UTF-8.
#[verifier::external_body]
fn decode_lossy(bytes: &[u8]) -> (name: String)
    ensures
        name@ == lossy_text(bytes@),
        valid_utf8(bytes@) ==> name@ == decode_utf8(bytes@),
{
    String::from_utf8_lossy(bytes).to_string()
}

/// The problem with the byte at place `i`, or with the end of the text.
fn unexpected(s: &[u8], i: usize, state: &'static str) -> (error: ParseError)
    ensures
        error@ == scenario::unexpected(s@, i as nat, state@),
{
    let chararter = if i < s.len() {
        Some(s[i])
    } else {
        None
    };
    ParseError { position: i, chararter, state }
}

fn is_blank(b: u8) -> (blank: bool)
    ensures
        blank == scenario::is_blank(b),
{
    b == ascii::SPACE || b == ascii::TAB || b == ascii::LINE_FEED
}

fn skip_blanks(s: &[u8], start: usize) -> (end: usize)
    requires
        start <= s.len(),
    ensures
        end == scenario::skip_blanks(s@, start as nat),
        start <= end <= s.len(),
{
    let mut i: usize = start;
    while i < s.len() && is_blank(s[i])
        invariant
            start <= i <= s.len(),
            scenario::skip_blanks(s@, i as nat) == scenario::skip_blanks(s@, start as nat),
        decreases s.len() - i,
    {
        i = i + 1;
    }
    i
}

/// The value of a hexadecimal digit.
fn hex_digit(b: u8) -> (value: Option<u8>)
    ensures
        match value {
            Some(d) => scenario::hex_value(b) == Some(d as nat),
            None => scenario::hex_value(b) is None,
        },
{
    decode_hex(ascii::DIGIT_0, b)
}

/// The escape whose backslash stands just before place `i`.
fn escape(s: &[u8], i: usize) -> (result: Result<(u8, usize), ParseError>)
    requires
        i <= s.len(),
    ensures
        match result {
            Ok((byte, end)) => scenario::escape(s@, i as nat) == Ok::<(u8, nat), Problem>(
                (byte, end as nat),
            ) && i < end <= s.len(),
            Err(error) => scenario::escape(s@, i as nat) == Err::<(u8, nat), Problem>(error@),
        },
{
    if i == s.len() {
        return Err(unexpected(s, i, "interpreting a character after `\\`"));
    }
    let b: u8 = s[i];
    if b != ascii::LOWER_X {
        let byte: u8 = if b == ascii::LOWER_N {
            ascii::LINE_FEED
        } else if b == ascii::LOWER_R {
            ascii::CARRIAGE_RETURN
        } else if b == ascii::DIGIT_0 {
            ascii::NUL
        } else if b == ascii::LOWER_T {
            ascii::TAB
        } else {
            b
        };
        return Ok((byte, i + 1));
    }
    if i + 1 == s.len() || hex_digit(s[i + 1]).is_none() {
        return Err(unexpected(s, i + 1, "interpreting a hex escape, first letter"));
    }
    if i + 2 == s.len() {
        return Err(unexpected(s, i + 2, "interpreting a hex escape, second letter"));
    }
    match decode_hex(s[i + 1], s[i + 2]) {
        Some(byte) => Ok((byte, i + 3)),
        None => Err(unexpected(s, i + 2, "interpreting a hex escape, second letter")),
    }
}

/// The bytes from place `start` up to the next `|` that is not escaped, or to the end of the
/// text, with their escapes resolved, and the place behind them.
fn content(s: &[u8], start: usize) -> (result: Result<(Vec<u8>, usize), ParseError>)
    requires
        start <= s.len(),
    ensures
        match result {
            Ok((data, end)) => scenario::content(s@, start as nat) == Ok::<
                (Seq<u8>, nat),
                Problem,
            >((data@, end as nat)) && start <= end <= s.len(),
            Err(error) => scenario::content(s@, start as nat) == Err::<(Seq<u8>, nat), Problem>(
                error@,
            ),
        },
{
    let mut data: Vec<u8> = Vec::new();
    let mut i: usize = start;
    let ghost goal = scenario::content(s@, start as nat);
    proof {
        lemma_prefixed_nothing(goal);
    }
    while i < s.len()
        invariant
            start <= i <= s.len(),
            goal == scenario::content(s@, start as nat),
            goal == scenario::prefixed(data@, scenario::content(s@, i as nat)),
        decreases s.len() - i,
    {
        let b: u8 = s[i];
        if b == ascii::BAR {
            assert(data@ + Seq::<u8>::empty() =~= data@);
            return Ok((data, i + 1));
        }
        if b == ascii::BACKSLASH {
            match escape(s, i + 1) {
                Ok((byte, end)) => {
                    proof {
                        lemma_prefixed_push(data@, byte, scenario::content(s@, end as nat));
                    }
                    data.push(byte);
                    i = end;
                },
                Err(error) => {
                    return Err(error);
                },
            }
        } else {
            proof {
                lemma_prefixed_push(data@, b, scenario::content(s@, (i + 1) as nat));
            }
            data.push(b);
            i = i + 1;
        }
    }
    assert(data@ + Seq::<u8>::empty() =~= data@);
    Ok((data, i))
}

proof fn lemma_prefixed_nothing<T>(scan: Result<(Seq<T>, nat), Problem>)
    ensures
        scenario::prefixed(Seq::empty(), scan) == scan,
{
    if let Ok((rest, end)) = scan {
        assert(Seq::<T>::empty() + rest =~= rest);
    }
}

proof fn lemma_prefixed_push<T>(first: Seq<T>, x: T, scan: Result<(Seq<T>, nat), Problem>)
    ensures
        scenario::prefixed(first, scenario::prefixed(seq![x], scan)) == scenario::prefixed(
            first.push(x),
            scan,
        ),
{
    if let Ok((rest, end)) = scan {
        assert(first + (seq![x] + rest) =~= first.push(x) + rest);
    }
}

/// The hexadecimal number at place `start`, and the place behind it.
fn hex_number(s: &[u8], start: usize) -> (result: Result<(u64, usize), ParseError>)
    requires
        start <= s.len(),
    ensures
        match result {
            Ok((n, end)) => scenario::hex_number(s@, start as nat, 0) == Ok::<
                (nat, nat),
                Problem,
            >((n as nat, end as nat)) && start <= end <= s.len(),
            Err(error) => scenario::hex_number(s@, start as nat, 0) == Err::<
                (nat, nat),
                Problem,
            >(error@),
        },
{
    let mut sum: u64 = 0;
    let mut i: usize = start;
    while i < s.len()
        invariant
            start <= i <= s.len(),
            scenario::hex_number(s@, start as nat, 0) == scenario::hex_number(
                s@,
                i as nat,
                sum as nat,
            ),
        decreases s.len() - i,
    {
        let b: u8 = s[i];
        if b == ascii::BAR {
            return Ok((sum, i + 1));
        }
        if !is_blank(b) {
            match hex_digit(b) {
                Some(d) => {
                    match sum.checked_mul(16) {
                        Some(shifted) => match shifted.checked_add(d as u64) {
                            Some(more) => {
                                sum = more;
                            },
                            None => {
                                return Err(
                                    unexpected(
                                        s,
                                        i,
                                        "continuing a hex number (which overflowed)",
                                    ),
                                );
                            },
                        },
                        None => {
                            return Err(
                                unexpected(s, i, "continuing a hex number (which overflowed)"),
                            );
                        },
                    }
                },
                None => {
                    return Err(unexpected(s, i, "continuing a hexadecimal number"));
                },
            }
        }
        i = i + 1;
    }
    Ok((sum, i))
}

/// The number at place `start`, and the place behind it.
fn number(s: &[u8], start: usize) -> (result: Result<(u64, usize), ParseError>)
    requires
        start <= s.len(),
    ensures
        match result {
            Ok((n, end)) => scenario::number(s@, start as nat, 0) == Ok::<(nat, nat), Problem>(
                (n as nat, end as nat),
            ) && start <= end <= s.len(),
            Err(error) => scenario::number(s@, start as nat, 0) == Err::<(nat, nat), Problem>(
                error@,
            ),
        },
{
    let mut sum: u64 = 0;
    let mut i: usize = start;
    while i < s.len()
        invariant
            start <= i <= s.len(),
            scenario::number(s@, start as nat, 0) == scenario::number(
                s@,
                i as nat,
                sum as nat,
            ),
        decreases s.len() - i,
    {
        let b: u8 = s[i];
        if b == ascii::BAR {
            return Ok((sum, i + 1));
        }
        if !is_blank(b) {
            if ascii::DIGIT_0 <= b && b <= ascii::DIGIT_9 {
                match sum.checked_mul(10) {
                    Some(shifted) => match shifted.checked_add((b - ascii::DIGIT_0) as u64) {
                        Some(more) => {
                            sum = more;
                        },
                        None => {
                            return Err(
                                unexpected(
                                    s,
                                    i,
                                    "continuing a decimal number (which overflowed)",
                                ),
                            );
                        },
                    },
                    None => {
                        return Err(
                            unexpected(s, i, "continuing a decimal number (which overflowed)"),
                        );
                    },
                }
            } else if sum > 0 {
                return Err(unexpected(s, i, "continuing a decimal number"));
            } else if b == ascii::LOWER_X || b == ascii::UPPER_X {
                return hex_number(s, i + 1);
            } else {
                return Err(unexpected(s, i, "waiting for a number"));
            }
        }
        i = i + 1;
    }
    Ok((sum, i))
}

/// The errors to inject that are listed from place `start` on, and the place behind them.
fn injected(s: &[u8], start: usize) -> (result: Result<(Vec<Action>, usize), ParseError>)
    requires
        start <= s.len(),
    ensures
        match result {
            Ok((actions, end)) => scenario::injected(s@, start as nat) == Ok::<
                (Seq<ActionView>, nat),
                Problem,
            >((action::views(actions@), end as nat)) && start <= end <= s.len(),
            Err(error) => scenario::injected(s@, start as nat) == Err::<
                (Seq<ActionView>, nat),
                Problem,
            >(error@),
        },
{
    let mut actions: Vec<Action> = Vec::new();
    let mut i: usize = start;
    let ghost goal = scenario::injected(s@, start as nat);
    proof {
        lemma_prefixed_nothing(goal);
        assert(action::views(actions@) =~= Seq::empty());
    }
    while i < s.len()
        invariant
            start <= i <= s.len(),
            goal == scenario::injected(s@, start as nat),
            goal == scenario::prefixed(
                action::views(actions@),
                scenario::injected(s@, i as nat),
            ),
        decreases s.len() - i,
    {
        let b: u8 = s[i];
        let ghost before = action::views(actions@);
        let ghost rest = scenario::injected(s@, (i + 1) as nat);
        if b == ascii::BAR {
            assert(before + Seq::<ActionView>::empty() =~= before);
            return Ok((actions, i + 1));
        }
        if !is_blank(b) {
            let error = Some(IoError::new(ErrorKind::Other));
            let a = if b == ascii::UPPER_R || b == ascii::LOWER_R {
                Action::ReadError(error)
            } else if b == ascii::UPPER_W || b == ascii::LOWER_W {
                Action::WriteError(error)
            } else {
                return Err(
                    unexpected(
                        s,
                        i,
                        "waiting for R or W character to choose which error to inject",
                    ),
                );
            };
            proof {
                lemma_prefixed_push(before, a@, rest);
                assert(action::views(actions@.push(a)) =~= before.push(a@));
            }
            actions.push(a);
        }
        i = i + 1;
    }
    assert(action::views(actions@) + Seq::<ActionView>::empty() =~= action::views(actions@));
    Ok((actions, i))
}

/// The actions of a text scenario, and the bytes of the name that it gives to the mock.
pub fn parse_bytes(s: &[u8]) -> (result: Result<(Vec<Action>, Option<Vec<u8>>), ParseError>)
    ensures
        match result {
            Ok((actions, name)) => scenario::parse(s@) == Ok::<Contribution, Problem>(
                contribution(actions, name),
            ),
            Err(error) => scenario::parse(s@) == Err::<Contribution, Problem>(error@),
        },
{
    let mut actions: Vec<Action> = Vec::new();
    let mut name: Option<Vec<u8>> = None;
    let mut i: usize = 0;
    let ghost goal = scenario::parse(s@);
    assert(goal =~= resumed(contribution(actions, name), scenario::commands(s@, 0)));
    while i < s.len()
        invariant
            i <= s.len(),
            goal == scenario::parse(s@),
            goal == resumed(contribution(actions, name), scenario::commands(s@, i as nat)),
        decreases s.len() - i,
    {
        let ghost before = contribution(actions, name);
        let ghost here = scenario::command(s@, i as nat);
        let ghost at = i;
        let b: u8 = s[i];
        let mut found: Option<Action> = None;
        if is_blank(b) || b == ascii::BAR {
            i = i + 1;
        } else if b == ascii::UPPER_R || b == ascii::LOWER_R {
            match content(s, skip_blanks(s, i + 1)) {
                Ok((data, end)) => {
                    found = Some(Action::Read(data));
                    i = end;
                },
                Err(error) => {
                    return Err(error);
                },
            }
        } else if b == ascii::UPPER_W || b == ascii::LOWER_W {
            match content(s, skip_blanks(s, i + 1)) {
                Ok((data, end)) => {
                    found = Some(Action::Write(data));
                    i = end;
                },
                Err(error) => {
                    return Err(error);
                },
            }
        } else if b == ascii::UPPER_N || b == ascii::LOWER_N {
            match content(s, skip_blanks(s, i + 1)) {
                Ok((data, end)) => {
                    name = Some(data);
                    i = end;
                },
                Err(error) => {
                    return Err(error);
                },
            }
        } else if b == ascii::UPPER_E {
            match injected(s, i + 1) {
                Ok((mut errors, end)) => {
                    actions.append(&mut errors);
                    i = end;
                },
                Err(error) => {
                    return Err(error);
                },
            }
        } else if b == ascii::UPPER_T {
            match number(s, i + 1) {
                Ok((n, end)) => {
                    found = Some(Action::Wait(Duration::from_millis(n)));
                    i = end;
                },
                Err(error) => {
                    return Err(error);
                },
            }
        } else if b == ascii::UPPER_I || b == ascii::LOWER_I {
            match number(s, i + 1) {
                Ok((n, end)) => {
                    found = Some(Action::IgnoreWritten(n as usize));
                    i = end;
                },
                Err(error) => {
                    return Err(error);
                },
            }
        } else if b == ascii::UPPER_Z || b == ascii::LOWER_Z {
            let j: usize = skip_blanks(s, i + 1);
            let c: u8 = if j < s.len() {
                s[j]
            } else {
                0
            };
            if c == ascii::UPPER_R || c == ascii::LOWER_R {
                match number(s, j + 1) {
                    Ok((n, end)) => {
                        found = Some(Action::ReadZeroes(n as usize));
                        i = end;
                    },
                    Err(error) => {
                        return Err(error);
                    },
                }
            } else if c == ascii::UPPER_W || c == ascii::LOWER_W {
                match number(s, j + 1) {
                    Ok((n, end)) => {
                        found = Some(Action::WriteZeroes(n as usize));
                        i = end;
                    },
                    Err(error) => {
                        return Err(error);
                    },
                }
            } else {
                return Err(unexpected(s, j, "waiting for a subcommand character ater `Z`"));
            }
        } else if b == ascii::UPPER_X || b == ascii::LOWER_X {
            found = Some(Action::ReadEof(false));
            i = i + 1;
        } else if b == ascii::UPPER_Q || b == ascii::LOWER_Q {
            found = Some(Action::StopChecking);
            i = i + 1;
        } else if b == ascii::UPPER_D {
            found = Some(Action::WriteShutdown(false));
            i = i + 1;
        } else {
            return Err(unexpected(s, i, "waiting for a command character"));
        }
        match found {
            Some(a) => {
                actions.push(a);
            },
            None => {},
        }
        proof {
            assert(here is Ok);
            let (first, end) = here->Ok_0;
            assert(end == i);
            assert(contribution(actions, name) =~= scenario::joined(before, first));
            lemma_resumed(before, first, scenario::commands(s@, end));
        }
    }
    assert(goal =~= Ok(contribution(actions, name)));
    Ok((actions, name))
}

/// What a scenario contributes that gives these actions and this name.
pub open spec fn contribution(actions: Vec<Action>, name: Option<Vec<u8>>) -> Contribution {
    Contribution {
        actions: action::views(actions@),
        name: match name {
            Some(bytes) => Some(bytes@),
            None => None,
        },
    }
}

/// What a scenario contributes whose first part contributes `first`.
spec fn resumed(first: Contribution, rest: Result<Contribution, Problem>) -> Result<
    Contribution,
    Problem,
> {
    match rest {
        Ok(rest) => Ok(scenario::joined(first, rest)),
        Err(problem) => Err(problem),
    }
}

proof fn lemma_resumed(a: Contribution, b: Contribution, rest: Result<Contribution, Problem>)
    ensures
        resumed(a, resumed(b, rest)) == resumed(scenario::joined(a, b), rest),
{
    if let Ok(c) = rest {
        assert(scenario::joined(a, scenario::joined(b, c)) =~= scenario::joined(
            scenario::joined(a, b),
            c,
        ));
    }
}

/// The actions of a text scenario, and the name that it gives to the mock.
pub fn parse_text_scenario(text_scenario: &str) -> (result: Result<
    (Vec<Action>, Option<String>),
    ParseError,
>)
    ensures
        match scenario::parse(text_scenario.spec_bytes()) {
            Ok(given) => {
                &&& result matches Ok((actions, name))
                &&& action::views(actions@) == given.actions
                &&& match given.name {
                    Some(bytes) => {
                        &&& name matches Some(name)
                        &&& name@ == lossy_text(bytes)
                        &&& valid_utf8(bytes) ==> name@ == decode_utf8(bytes)
                    },
                    None => name is None,
                }
            },
            Err(problem) => result matches Err(error) && error@ == problem,
        },
{
    match parse_bytes(text_scenario.as_bytes()) {
        Ok((actions, name)) => {
            let name = match name {
                Some(bytes) => Some(decode_lossy(bytes.as_slice())),
                None => None,
            };
            Ok((actions, name))
        },
        Err(error) => Err(error),
    }
}

} // verus!
