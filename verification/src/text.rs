//! Building blocks of messages.

use vstd::prelude::*;
use vstd::string::*;

verus! {

/// A decimal digit, as text.
pub open spec fn digit(d: nat) -> Seq<char> {
    if d == 0 {
        "0"@
    } else if d == 1 {
        "1"@
    } else if d == 2 {
        "2"@
    } else if d == 3 {
        "3"@
    } else if d == 4 {
        "4"@
    } else if d == 5 {
        "5"@
    } else if d == 6 {
        "6"@
    } else if d == 7 {
        "7"@
    } else if d == 8 {
        "8"@
    } else {
        "9"@
    }
}

/// A number in decimal, without leading zeroes.
pub open spec fn decimal(n: nat) -> Seq<char>
    decreases n,
{
    if n < 10 {
        digit(n)
    } else {
        decimal(n / 10) + digit(n % 10)
    }
}

fn digit_str(d: u64) -> (s: &'static str)
    requires
        d < 10,
    ensures
        s@ == digit(d as nat),
{
    match d {
        0 => "0",
        1 => "1",
        2 => "2",
        3 => "3",
        4 => "4",
        5 => "5",
        6 => "6",
        7 => "7",
        8 => "8",
        _ => "9",
    }
}

/// Appends a number in decimal.
pub fn append_decimal(text: &mut String, n: u64)
    ensures
        final(text)@ == old(text)@ + decimal(n as nat),
    decreases n,
{
    if n >= 10 {
        append_decimal(text, n / 10);
    }
    text.append(digit_str(n % 10));
    assert(text@ =~= old(text)@ + decimal(n as nat));
}

/// A lower case hexadecimal digit, as text.
pub open spec fn hex_digit(d: nat) -> Seq<char> {
    if d < 10 {
        digit(d)
    } else if d == 10 {
        "a"@
    } else if d == 11 {
        "b"@
    } else if d == 12 {
        "c"@
    } else if d == 13 {
        "d"@
    } else if d == 14 {
        "e"@
    } else {
        "f"@
    }
}

/// A byte as it is shown to the user: printable ASCII stands for itself, quotes and the
/// backslash follow a backslash, tab, line feed and carriage return are `\t`, `\n` and `\r`, and
/// every other byte is `\x` and its two hexadecimal digits.
pub open spec fn escaped_byte(b: u8) -> Seq<char> {
    if b == 0x09 {
        "\\t"@
    } else if b == 0x0a {
        "\\n"@
    } else if b == 0x0d {
        "\\r"@
    } else if b == 0x22 || b == 0x27 || b == 0x5c {
        "\\"@.push(b as char)
    } else if 0x20 <= b <= 0x7e {
        seq![b as char]
    } else {
        "\\x"@ + hex_digit((b / 16) as nat) + hex_digit((b % 16) as nat)
    }
}

fn hex_digit_str(d: u8) -> (s: &'static str)
    requires
        d < 16,
    ensures
        s@ == hex_digit(d as nat),
{
    match d {
        10 => "a",
        11 => "b",
        12 => "c",
        13 => "d",
        14 => "e",
        15 => "f",
        _ => digit_str(d as u64),
    }
}

/// `String::push`, which "appends the given `char` to the end of this `String`".
pub assume_specification[ String::push ](string: &mut String, c: char)
    ensures
        final(string)@ == old(string)@.push(c),
;

/// `String::from` of a `&str`, which "converts a `&str` into a `String`": the text is the same.
pub assume_specification<'a>[ <std::string::String as std::convert::From<&'a str>>::from ](
    s: &str,
) -> (string: String)
    ensures
        string@ == s@,
;

/// Appends a byte as it is shown to the user.
pub fn append_escaped_byte(text: &mut String, b: u8)
    ensures
        final(text)@ == old(text)@ + escaped_byte(b),
{
    if b == 0x09 {
        text.append("\\t");
    } else if b == 0x0a {
        text.append("\\n");
    } else if b == 0x0d {
        text.append("\\r");
    } else if b == 0x22 || b == 0x27 || b == 0x5c {
        text.append("\\");
        text.push(b as char);
    } else if 0x20 <= b && b <= 0x7e {
        text.push(b as char);
    } else {
        text.append("\\x");
        text.append(hex_digit_str(b / 16));
        text.append(hex_digit_str(b % 16));
    }
    assert(text@ =~= old(text)@ + escaped_byte(b));
}

} // verus!
