//! What the commands of a scenario mean, byte by byte.

use crate::action::ActionView;
use crate::error::{ErrorKind, IoError};
use crate::laws::concatenation;
use crate::scenario::{self, Contribution, Problem};
use vstd::prelude::*;

verus! {

/// The byte of an ASCII character.
pub open spec fn byte(c: char) -> u8 {
    c as u8
}

/// Whether a byte is a letter, in upper or in lower case.
pub open spec fn is_letter(b: u8, upper: char, lower: char) -> bool {
    b == byte(upper) || b == byte(lower)
}

/// Whether a byte is a space, a tab or a line feed.
pub open spec fn is_space(b: u8) -> bool {
    b == byte(' ') || b == byte('\t') || b == byte('\n')
}

/// Whether a text is blank.
pub open spec fn is_all_space(s: Seq<u8>) -> bool {
    forall|k: int| 0 <= k < s.len() ==> is_space(#[trigger] s[k])
}

/// The value of a digit; negative if the byte is none.
pub open spec fn digit(b: u8) -> int {
    if byte('0') <= b <= byte('9') {
        b - byte('0')
    } else if byte('a') <= b <= byte('f') {
        b - byte('a') + 10
    } else if byte('A') <= b <= byte('F') {
        b - byte('A') + 10
    } else {
        -1
    }
}

proof fn bytes_are_themselves(b: u8)
    ensures
        scenario::is_blank(b) == is_space(b),
        scenario::hex_value(b) == if digit(b) < 0 {
            None
        } else {
            Some(digit(b) as nat)
        },
        scenario::decimal_value(b) == if 0 <= digit(b) < 10 {
            Some(digit(b) as nat)
        } else {
            None
        },
{
}

/// What a text gives whose first byte gives some actions, and whose rest gives what it gives.
pub open spec fn after_first_byte(
    actions: Seq<ActionView>,
    rest: Result<Contribution, Problem>,
) -> Result<Contribution, Problem> {
    match rest {
        Ok(given) => Ok(Contribution { actions: actions + given.actions, name: given.name }),
        Err(problem) => Err(Problem { position: problem.position + 1, ..problem }),
    }
}

/// Blanks and bars give nothing, and `X`, `Q` and `D` are commands of one byte: an end of file, the
/// end of checking and a shutdown. Whatever stands behind them is read on its own. A byte that
/// begins no command is a problem.
pub proof fn first_byte_counts(c: u8, rest: Seq<u8>)
    ensures
        ({
            let s = seq![c] + rest;
            let later = scenario::parse(rest);
            &&& is_space(c) || c == byte('|') ==> scenario::parse(s) == after_first_byte(
                Seq::empty(),
                later,
            )
            &&& is_letter(c, 'X', 'x') ==> scenario::parse(s) == after_first_byte(
                seq![ActionView::ReadEof(false)],
                later,
            )
            &&& is_letter(c, 'Q', 'q') ==> scenario::parse(s) == after_first_byte(
                seq![ActionView::StopChecking],
                later,
            )
            &&& c == byte('D') ==> scenario::parse(s) == after_first_byte(
                seq![ActionView::WriteShutdown(false)],
                later,
            )
            &&& !(is_space(c) || c == byte('|') || is_letter(c, 'R', 'r') || is_letter(c, 'W', 'w')
                || is_letter(c, 'N', 'n') || c == byte('E') || c == byte('T') || is_letter(
                c,
                'I',
                'i',
            ) || is_letter(c, 'Z', 'z') || is_letter(c, 'X', 'x') || is_letter(c, 'Q', 'q') || c
                == byte('D')) ==> scenario::parse(s) == Err::<Contribution, Problem>(
                Problem {
                    position: 0,
                    character: Some(c),
                    state: "waiting for a command character"@,
                },
            )
        }),
        scenario::parse(Seq::empty()) == Ok::<Contribution, Problem>(
            Contribution { actions: Seq::empty(), name: None },
        ),
{
    let s = seq![c] + rest;
    assert(s[0] == c);
    bytes_are_themselves(c);
    assert(concatenation::ends_in(s, rest, 1)) by {
        assert forall|i: int| 0 <= i < rest.len() implies #[trigger] rest[i] == s[1 + i] by {}
    }
    concatenation::commands_moved(s, rest, 1, 0);
    if let Ok(given) = scenario::parse(rest) {
        assert(Seq::<ActionView>::empty() + given.actions =~= given.actions);
        if let Ok((first, _)) = scenario::command(s, 0) {
            assert(scenario::joined(first, given) =~= Contribution {
                actions: first.actions + given.actions,
                name: if given.name is Some {
                    given.name
                } else {
                    first.name
                },
            });
        }
    }
}

/// `t` stands in `s` at place `i`.
pub open spec fn stands_at(s: Seq<u8>, t: Seq<u8>, i: nat) -> bool {
    i + t.len() <= s.len() && forall|k: int| 0 <= k < t.len() ==> #[trigger] t[k] == s[i + k]
}

proof fn parts_stand(s: Seq<u8>, a: Seq<u8>, b: Seq<u8>, i: nat)
    requires
        stands_at(s, a + b, i),
    ensures
        stands_at(s, a, i),
        stands_at(s, b, i + a.len()),
{
    let t = a + b;
    assert forall|k: int| 0 <= k < a.len() implies #[trigger] a[k] == s[i + k] by {
        assert(t[k] == s[i + k]);
    }
    assert forall|k: int| 0 <= k < b.len() implies #[trigger] b[k] == s[i + a.len() + k] by {
        assert(t[a.len() + k] == s[i + (a.len() + k)]);
    }
}

proof fn blanks_are_skipped(s: Seq<u8>, blanks: Seq<u8>, i: nat)
    requires
        is_all_space(blanks),
        stands_at(s, blanks, i),
        i + blanks.len() < s.len() ==> !is_space(s[i as int + blanks.len()]),
    ensures
        scenario::skip_blanks(s, i) == i + blanks.len(),
    decreases blanks.len(),
{
    if blanks.len() > 0 {
        assert(blanks[0] == s[i as int]);
        let rest = blanks.skip(1);
        assert forall|k: int| 0 <= k < rest.len() implies #[trigger] rest[k] == s[i + 1 + k] by {
            assert(blanks[k + 1] == s[i + (k + 1)]);
        }
        assert forall|k: int| 0 <= k < rest.len() implies is_space(#[trigger] rest[k]) by {
            assert(rest[k] == blanks[k + 1]);
        }
        blanks_are_skipped(s, rest, i + 1);
    }
}

/// A text that is one command gives what the command gives.
proof fn one_command(s: Seq<u8>)
    requires
        s.len() > 0,
    ensures
        match scenario::command(s, 0) {
            Ok((given, end)) => end == s.len() ==> scenario::parse(s) == Ok::<
                Contribution,
                Problem,
            >(given),
            Err(problem) => scenario::parse(s) == Err::<Contribution, Problem>(problem),
        },
{
    if let Ok((given, _)) = scenario::command(s, 0) {
        assert(scenario::commands(s, s.len()) == Ok::<Contribution, Problem>(scenario::nothing()));
        assert(scenario::joined(given, scenario::nothing()) =~= given);
    }
}

//////////////////////////////////////////////////////////////////////////////
// Content
//////////////////////////////////////////////////////////////////////////////

/// A piece of content, which stands for one byte.
pub enum Piece {
    /// A byte that stands for itself.
    Plain(u8),
    /// A byte behind a backslash.
    Escaped(u8),
    /// Two hexadecimal digits behind a backslash and an `x`.
    Hex(u8, u8),
}

impl Piece {
    /// Whether the piece can be written.
    pub open spec fn is_valid(self) -> bool {
        match self {
            Piece::Plain(b) => b != byte('|') && b != byte('\\'),
            Piece::Escaped(b) => b != byte('x'),
            Piece::Hex(high, low) => digit(high) >= 0 && digit(low) >= 0,
        }
    }

    /// The text of the piece.
    pub open spec fn text(self) -> Seq<u8> {
        match self {
            Piece::Plain(b) => seq![b],
            Piece::Escaped(b) => seq![byte('\\'), b],
            Piece::Hex(high, low) => seq![byte('\\'), byte('x'), high, low],
        }
    }

    /// The byte that the piece stands for.
    pub open spec fn meaning(self) -> u8 {
        match self {
            Piece::Plain(b) => b,
            Piece::Escaped(b) => if b == byte('n') {
                byte('\n')
            } else if b == byte('r') {
                byte('\r')
            } else if b == byte('t') {
                byte('\t')
            } else if b == byte('0') {
                0
            } else {
                b
            },
            Piece::Hex(high, low) => (16 * digit(high) + digit(low)) as u8,
        }
    }
}

/// The text of some pieces.
pub open spec fn text_of(pieces: Seq<Piece>) -> Seq<u8>
    decreases pieces.len(),
{
    if pieces.len() == 0 {
        Seq::empty()
    } else {
        pieces[0].text() + text_of(pieces.skip(1))
    }
}

/// The bytes that some pieces stand for, one for each.
pub open spec fn meaning_of(pieces: Seq<Piece>) -> Seq<u8> {
    Seq::new(pieces.len(), |k: int| pieces[k].meaning())
}

/// Whether some pieces are the content of a command: they can be written, and the first of them
/// is no blank.
pub open spec fn is_content(pieces: Seq<Piece>) -> bool {
    &&& forall|k: int| 0 <= k < pieces.len() ==> (#[trigger] pieces[k]).is_valid()
    &&& pieces.len() > 0 ==> !(pieces[0] matches Piece::Plain(b) && is_space(b))
}

proof fn content_of_pieces(s: Seq<u8>, i: nat, pieces: Seq<Piece>)
    requires
        forall|k: int| 0 <= k < pieces.len() ==> (#[trigger] pieces[k]).is_valid(),
        stands_at(s, text_of(pieces), i),
    ensures
        scenario::content(s, i) == scenario::prefixed(
            meaning_of(pieces),
            scenario::content(s, i + text_of(pieces).len()),
        ),
    decreases pieces.len(),
{
    if pieces.len() == 0 {
        if let Ok((data, _)) = scenario::content(s, i) {
            assert(meaning_of(pieces) + data =~= data);
        }
    } else {
        let rest = pieces.skip(1);
        let first = pieces[0];
        let text = first.text();
        parts_stand(s, text, text_of(rest), i);
        assert(first.is_valid());
        assert forall|k: int| 0 <= k < rest.len() implies (#[trigger] rest[k]).is_valid() by {
            assert(rest[k] == pieces[k + 1]);
        }
        content_of_pieces(s, i + text.len(), rest);
        assert(text[0] == s[i as int]);
        match first {
            Piece::Plain(_) => {},
            Piece::Escaped(_) => {
                assert(text[1] == s[i as int + 1]);
            },
            Piece::Hex(high, low) => {
                assert(text[1] == s[i as int + 1]);
                assert(text[2] == s[i as int + 2]);
                assert(text[3] == s[i as int + 3]);
                bytes_are_themselves(high);
                bytes_are_themselves(low);
            },
        }
        assert(scenario::content(s, i) == scenario::prefixed(
            seq![first.meaning()],
            scenario::content(s, i + text.len()),
        ));
        if let Ok((data, _)) = scenario::content(s, i + text_of(pieces).len()) {
            assert(seq![first.meaning()] + (meaning_of(rest) + data) =~= meaning_of(pieces) + data);
        }
    }
}

/// The place where the content of a command begins.
proof fn content_begins(c: u8, blanks: Seq<u8>, pieces: Seq<Piece>, tail: Seq<u8>) -> (s: Seq<u8>)
    requires
        is_all_space(blanks),
        is_content(pieces),
        tail.len() > 0 ==> tail[0] == byte('\\'),
    ensures
        s == seq![c] + blanks + text_of(pieces) + tail,
        s.len() > 0,
        s[0] == c,
        stands_at(s, tail, (1 + blanks.len() + text_of(pieces).len()) as nat),
        scenario::content(s, scenario::skip_blanks(s, 1)) == scenario::prefixed(
            meaning_of(pieces),
            scenario::content(s, (1 + blanks.len() + text_of(pieces).len()) as nat),
        ),
{
    let text = text_of(pieces);
    let s = seq![c] + blanks + text + tail;
    let i = (1 + blanks.len()) as nat;
    assert(stands_at(s, seq![c] + blanks + text + tail, 0));
    parts_stand(s, seq![c] + blanks + text, tail, 0);
    parts_stand(s, seq![c] + blanks, text, 0);
    parts_stand(s, seq![c], blanks, 0);
    assert(seq![c][0] == s[0]);
    if i < s.len() {
        if pieces.len() > 0 {
            let first = pieces[0];
            assert(first.is_valid());
            assert(text[0] == first.text()[0]);
            assert(text[0] == s[i as int]);
        } else {
            assert(tail[0] == s[i as int]);
        }
    }
    blanks_are_skipped(s, blanks, 1);
    content_of_pieces(s, i, pieces);
    s
}

/// What a content command gives: `R` has bytes to be read, `W` bytes to be written, and `N` names
/// the mock.
pub open spec fn given_by(c: u8, data: Seq<u8>) -> Contribution {
    if is_letter(c, 'R', 'r') {
        Contribution { actions: seq![ActionView::Read(data)], name: None }
    } else if is_letter(c, 'W', 'w') {
        Contribution { actions: seq![ActionView::Write(data)], name: None }
    } else {
        Contribution { actions: Seq::empty(), name: Some(data) }
    }
}

/// Whether a byte begins a command with content.
pub open spec fn has_content(c: u8) -> bool {
    is_letter(c, 'R', 'r') || is_letter(c, 'W', 'w') || is_letter(c, 'N', 'n')
}

/// Content is read piece by piece: each piece stands for one byte, whatever stands before it and
/// behind it. Blanks before the first piece are left out.
pub proof fn content_is_read_piece_by_piece(c: u8, blanks: Seq<u8>, pieces: Seq<Piece>)
    requires
        has_content(c),
        is_all_space(blanks),
        is_content(pieces),
    ensures
        scenario::parse(seq![c] + blanks + text_of(pieces)) == Ok::<Contribution, Problem>(
            given_by(c, meaning_of(pieces)),
        ),
{
    let s = content_begins(c, blanks, pieces, Seq::empty());
    assert(s =~= seq![c] + blanks + text_of(pieces));
    assert(meaning_of(pieces) + Seq::<u8>::empty() =~= meaning_of(pieces));
    one_command(s);
}

/// A problem with an escape behind some pieces is the problem with the command.
proof fn escape_decides(c: u8, blanks: Seq<u8>, pieces: Seq<Piece>, tail: Seq<u8>) -> (s: Seq<u8>)
    requires
        has_content(c),
        is_all_space(blanks),
        is_content(pieces),
        tail.len() > 0,
        tail[0] == byte('\\'),
    ensures
        s == seq![c] + blanks + text_of(pieces) + tail,
        ({
            let n = (1 + blanks.len() + text_of(pieces).len()) as nat;
            scenario::escape(s, n + 1) matches Err(problem) ==> scenario::parse(s) == Err::<
                Contribution,
                Problem,
            >(problem)
        }),
{
    let n = (1 + blanks.len() + text_of(pieces).len()) as nat;
    let s = content_begins(c, blanks, pieces, tail);
    assert(tail[0] == s[n as int]);
    one_command(s);
    s
}

/// An escape that is not complete is a problem where it goes wrong: at the end of the text behind
/// a backslash, and at the first byte behind `\x` that is no hexadecimal digit, or at the end of
/// the text there.
pub proof fn bad_escape_is_a_problem(
    c: u8,
    blanks: Seq<u8>,
    pieces: Seq<Piece>,
    high: u8,
    bad: u8,
    rest: Seq<u8>,
)
    requires
        has_content(c),
        is_all_space(blanks),
        is_content(pieces),
        digit(high) >= 0,
        digit(bad) < 0,
    ensures
        ({
            let before = seq![c] + blanks + text_of(pieces);
            let n = before.len();
            let problem = |position: nat, character: Option<u8>, state: Seq<char>|
                Err::<Contribution, Problem>(Problem { position, character, state });
            let behind = "interpreting a character after `\\`"@;
            let first = "interpreting a hex escape, first letter"@;
            let second = "interpreting a hex escape, second letter"@;
            let slash = byte('\\');
            let x = byte('x');
            &&& scenario::parse(before + seq![slash]) == problem(n + 1, None, behind)
            &&& scenario::parse(before + seq![slash, x]) == problem(n + 2, None, first)
            &&& scenario::parse(before + (seq![slash, x, bad] + rest)) == problem(
                n + 2,
                Some(bad),
                first,
            )
            &&& scenario::parse(before + seq![slash, x, high]) == problem(n + 3, None, second)
            &&& scenario::parse(before + (seq![slash, x, high, bad] + rest)) == problem(
                n + 3,
                Some(bad),
                second,
            )
        }),
{
    let slash = byte('\\');
    let x = byte('x');
    let n = (1 + blanks.len() + text_of(pieces).len()) as nat;
    bytes_are_themselves(high);
    bytes_are_themselves(bad);
    let s = escape_decides(c, blanks, pieces, seq![slash]);
    let s = escape_decides(c, blanks, pieces, seq![slash, x]);
    assert(s[n as int + 1] == x);
    let s = escape_decides(c, blanks, pieces, seq![slash, x, bad] + rest);
    assert(s[n as int + 1] == x);
    assert(s[n as int + 2] == bad);
    let s = escape_decides(c, blanks, pieces, seq![slash, x, high]);
    assert(s[n as int + 1] == x);
    assert(s[n as int + 2] == high);
    let s = escape_decides(c, blanks, pieces, seq![slash, x, high, bad] + rest);
    assert(s[n as int + 1] == x);
    assert(s[n as int + 2] == high);
    assert(s[n as int + 3] == bad);
}

//////////////////////////////////////////////////////////////////////////////
// Numbers
//////////////////////////////////////////////////////////////////////////////

/// Whether a text consists of digits to a base, with blanks anywhere among them.
pub open spec fn is_numeral(t: Seq<u8>, base: nat) -> bool {
    forall|k: int| 0 <= k < t.len() ==> (is_space(#[trigger] t[k]) || 0 <= digit(t[k]) < base)
}

/// The number that digits to a base stand for, if blanks do not count.
pub open spec fn value_of(t: Seq<u8>, base: nat) -> nat
    decreases t.len(),
{
    if t.len() == 0 {
        0
    } else if is_space(t.last()) {
        value_of(t.drop_last(), base)
    } else {
        (base * value_of(t.drop_last(), base) + digit(t.last())) as nat
    }
}

proof fn number_of_numeral(s: Seq<u8>, i: nat, t: Seq<u8>)
    requires
        is_numeral(t, 10),
        stands_at(s, t, i),
        value_of(t, 10) <= u64::MAX,
    ensures
        scenario::number(s, i, 0) == scenario::number(s, i + t.len(), value_of(t, 10)),
    decreases t.len(),
{
    if t.len() > 0 {
        let front = t.drop_last();
        let last = t.len() - 1;
        assert forall|k: int| 0 <= k < front.len() implies (is_space(#[trigger] front[k]) || 0
            <= digit(front[k]) < 10) by {
            assert(front[k] == t[k]);
        }
        assert forall|k: int| 0 <= k < front.len() implies #[trigger] front[k] == s[i + k] by {
            assert(front[k] == t[k]);
        }
        assert(t[last] == s[i + last]);
        bytes_are_themselves(t[last]);
        number_of_numeral(s, i, front);
    }
}

proof fn hex_number_of_numeral(s: Seq<u8>, i: nat, t: Seq<u8>)
    requires
        is_numeral(t, 16),
        stands_at(s, t, i),
        value_of(t, 16) <= u64::MAX,
    ensures
        scenario::hex_number(s, i, 0) == scenario::hex_number(s, i + t.len(), value_of(t, 16)),
    decreases t.len(),
{
    if t.len() > 0 {
        let front = t.drop_last();
        let last = t.len() - 1;
        assert forall|k: int| 0 <= k < front.len() implies (is_space(#[trigger] front[k]) || 0
            <= digit(front[k]) < 16) by {
            assert(front[k] == t[k]);
        }
        assert forall|k: int| 0 <= k < front.len() implies #[trigger] front[k] == s[i + k] by {
            assert(front[k] == t[k]);
        }
        assert(t[last] == s[i + last]);
        bytes_are_themselves(t[last]);
        hex_number_of_numeral(s, i, front);
    }
}

/// A command that takes a number.
pub enum Counted {
    /// `T`: a wait of so many milliseconds.
    Wait,
    /// `I`, in upper or lower case: so many bytes whose content does not matter.
    Ignore(u8),
    /// `Z` and, perhaps behind blanks, `R`, both in upper or lower case: so many zeroes to be read.
    ReadZeroes(u8, Seq<u8>, u8),
    /// `Z` and, perhaps behind blanks, `W`, both in upper or lower case: so many zeroes to be
    /// written.
    WriteZeroes(u8, Seq<u8>, u8),
}

impl Counted {
    /// Whether the letters are right.
    pub open spec fn is_valid(self) -> bool {
        match self {
            Counted::Wait => true,
            Counted::Ignore(c) => is_letter(c, 'I', 'i'),
            Counted::ReadZeroes(c, blanks, d) => {
                is_letter(c, 'Z', 'z') && is_all_space(blanks) && is_letter(d, 'R', 'r')
            },
            Counted::WriteZeroes(c, blanks, d) => {
                is_letter(c, 'Z', 'z') && is_all_space(blanks) && is_letter(d, 'W', 'w')
            },
        }
    }

    /// The text up to the number.
    pub open spec fn text(self) -> Seq<u8> {
        match self {
            Counted::Wait => seq![byte('T')],
            Counted::Ignore(c) => seq![c],
            Counted::ReadZeroes(c, blanks, d) => seq![c] + blanks + seq![d],
            Counted::WriteZeroes(c, blanks, d) => seq![c] + blanks + seq![d],
        }
    }

    /// The largest number that the command can take to a machine.
    pub open spec fn bound(self) -> nat {
        if self is Wait {
            u64::MAX as nat
        } else if usize::MAX <= u64::MAX {
            usize::MAX as nat
        } else {
            u64::MAX as nat
        }
    }

    /// The action that the command gives with a number.
    pub open spec fn action(self, n: nat) -> ActionView {
        match self {
            Counted::Wait => ActionView::Wait(n * 1_000_000),
            Counted::Ignore(_) => ActionView::IgnoreWritten(n),
            Counted::ReadZeroes(..) => ActionView::ReadZeroes(n),
            Counted::WriteZeroes(..) => ActionView::WriteZeroes(n),
        }
    }
}

/// A command that takes a number takes the number behind its letters.
proof fn number_decides(command: Counted, tail: Seq<u8>) -> (s: Seq<u8>)
    requires
        command.is_valid(),
    ensures
        s == command.text() + tail,
        s.len() > 0,
        stands_at(s, tail, command.text().len()),
        match scenario::number(s, command.text().len(), 0) {
            Ok((n, end)) => n <= command.bound() && end == s.len() ==> scenario::parse(s) == Ok::<
                Contribution,
                Problem,
            >(Contribution { actions: seq![command.action(n)], name: None }),
            Err(problem) => scenario::parse(s) == Err::<Contribution, Problem>(problem),
        },
{
    let s = command.text() + tail;
    assert(stands_at(s, command.text() + tail, 0));
    parts_stand(s, command.text(), tail, 0);
    assert(command.text()[0] == s[0]);
    match command {
        Counted::ReadZeroes(c, blanks, d) | Counted::WriteZeroes(c, blanks, d) => {
            parts_stand(s, seq![c] + blanks, seq![d], 0);
            parts_stand(s, seq![c], blanks, 0);
            assert(seq![c][0] == s[0]);
            assert(seq![d][0] == s[1int + blanks.len()]);
            blanks_are_skipped(s, blanks, 1);
        },
        _ => {},
    }
    one_command(s);
    s
}

/// A number is read digit by digit, and blanks among the digits do not count.
pub proof fn decimal_numbers_are_read(command: Counted, t: Seq<u8>)
    requires
        command.is_valid(),
        is_numeral(t, 10),
        value_of(t, 10) <= command.bound(),
    ensures
        scenario::parse(command.text() + t) == Ok::<Contribution, Problem>(
            Contribution { actions: seq![command.action(value_of(t, 10))], name: None },
        ),
{
    let s = number_decides(command, t);
    number_of_numeral(s, command.text().len(), t);
}

/// Zeroes and blanks stand for nothing.
proof fn value_of_zeroes(t: Seq<u8>)
    requires
        forall|k: int| 0 <= k < t.len() ==> is_space(#[trigger] t[k]) || t[k] == byte('0'),
    ensures
        is_numeral(t, 10),
        value_of(t, 10) == 0,
    decreases t.len(),
{
    if t.len() > 0 {
        let front = t.drop_last();
        assert forall|k: int| 0 <= k < front.len() implies is_space(#[trigger] front[k]) || front[k]
            == byte('0') by {
            assert(front[k] == t[k]);
        }
        value_of_zeroes(front);
        assert(t[t.len() - 1] == t.last());
    }
}

/// A number behind an `x`, in upper or lower case, is hexadecimal, with digits in upper or lower
/// case; only zeroes and blanks may stand before the `x`.
pub proof fn hexadecimal_numbers_are_read(command: Counted, zeroes: Seq<u8>, x: u8, t: Seq<u8>)
    requires
        command.is_valid(),
        forall|k: int|
            0 <= k < zeroes.len() ==> is_space(#[trigger] zeroes[k]) || zeroes[k] == byte('0'),
        is_letter(x, 'X', 'x'),
        is_numeral(t, 16),
        value_of(t, 16) <= command.bound(),
    ensures
        scenario::parse(command.text() + (zeroes + seq![x] + t)) == Ok::<Contribution, Problem>(
            Contribution { actions: seq![command.action(value_of(t, 16))], name: None },
        ),
{
    let tail = zeroes + seq![x] + t;
    let s = number_decides(command, tail);
    let i = command.text().len();
    parts_stand(s, zeroes + seq![x], t, i);
    parts_stand(s, zeroes, seq![x], i);
    assert(seq![x][0] == s[i as int + zeroes.len()]);
    value_of_zeroes(zeroes);
    bytes_are_themselves(x);
    number_of_numeral(s, i, zeroes);
    hex_number_of_numeral(s, i + zeroes.len() + 1, t);
}

/// A byte that goes on no decimal number is a problem, and so is a digit with which the number is
/// too large for a machine.
pub proof fn bad_decimal_number_is_a_problem(
    command: Counted,
    t: Seq<u8>,
    bad: u8,
    rest: Seq<u8>,
)
    requires
        command.is_valid(),
        is_numeral(t, 10),
        value_of(t, 10) <= u64::MAX,
        bad != byte('|'),
        !is_space(bad),
        0 <= digit(bad) < 10 ==> 10 * value_of(t, 10) + digit(bad) > u64::MAX,
        is_letter(bad, 'X', 'x') ==> value_of(t, 10) > 0,
    ensures
        scenario::parse(command.text() + (t + seq![bad] + rest)) == Err::<Contribution, Problem>(
            Problem {
                position: command.text().len() + t.len(),
                character: Some(bad),
                state: if 0 <= digit(bad) < 10 {
                    "continuing a decimal number (which overflowed)"@
                } else if value_of(t, 10) > 0 {
                    "continuing a decimal number"@
                } else {
                    "waiting for a number"@
                },
            },
        ),
{
    let s = number_decides(command, t + seq![bad] + rest);
    let i = command.text().len();
    parts_stand(s, t + seq![bad], rest, i);
    parts_stand(s, t, seq![bad], i);
    assert(seq![bad][0] == s[i as int + t.len()]);
    bytes_are_themselves(bad);
    number_of_numeral(s, i, t);
}

/// A byte that goes on no hexadecimal number is a problem, and so is a digit with which the number
/// is too large for a machine.
pub proof fn bad_hexadecimal_number_is_a_problem(
    command: Counted,
    zeroes: Seq<u8>,
    x: u8,
    t: Seq<u8>,
    bad: u8,
    rest: Seq<u8>,
)
    requires
        command.is_valid(),
        forall|k: int|
            0 <= k < zeroes.len() ==> is_space(#[trigger] zeroes[k]) || zeroes[k] == byte('0'),
        is_letter(x, 'X', 'x'),
        is_numeral(t, 16),
        value_of(t, 16) <= u64::MAX,
        bad != byte('|'),
        !is_space(bad),
        0 <= digit(bad) ==> 16 * value_of(t, 16) + digit(bad) > u64::MAX,
    ensures
        scenario::parse(command.text() + (zeroes + seq![x] + t + seq![bad] + rest)) == Err::<
            Contribution,
            Problem,
        >(
            Problem {
                position: command.text().len() + zeroes.len() + 1 + t.len(),
                character: Some(bad),
                state: if 0 <= digit(bad) {
                    "continuing a hex number (which overflowed)"@
                } else {
                    "continuing a hexadecimal number"@
                },
            },
        ),
{
    let s = number_decides(command, zeroes + seq![x] + t + seq![bad] + rest);
    let i = command.text().len();
    parts_stand(s, zeroes + seq![x] + t + seq![bad], rest, i);
    parts_stand(s, zeroes + seq![x] + t, seq![bad], i);
    parts_stand(s, zeroes + seq![x], t, i);
    parts_stand(s, zeroes, seq![x], i);
    assert(seq![x][0] == s[i as int + zeroes.len()]);
    assert(seq![bad][0] == s[i as int + (zeroes + seq![x] + t).len()]);
    value_of_zeroes(zeroes);
    bytes_are_themselves(x);
    bytes_are_themselves(bad);
    number_of_numeral(s, i, zeroes);
    hex_number_of_numeral(s, i + zeroes.len() + 1, t);
}

/// A `Z` that neither an `R` nor a `W` follows is a problem there.
pub proof fn bare_zero_command_is_a_problem(c: u8, blanks: Seq<u8>, bad: u8, rest: Seq<u8>)
    requires
        is_letter(c, 'Z', 'z'),
        is_all_space(blanks),
        !is_space(bad),
        !is_letter(bad, 'R', 'r'),
        !is_letter(bad, 'W', 'w'),
    ensures
        scenario::parse(seq![c] + blanks) == Err::<Contribution, Problem>(
            Problem {
                position: 1 + blanks.len(),
                character: None,
                state: "waiting for a subcommand character ater `Z`"@,
            },
        ),
        scenario::parse(seq![c] + blanks + seq![bad] + rest) == Err::<Contribution, Problem>(
            Problem {
                position: 1 + blanks.len(),
                character: Some(bad),
                state: "waiting for a subcommand character ater `Z`"@,
            },
        ),
{
    let s = seq![c] + blanks;
    assert(stands_at(s, seq![c] + blanks, 0));
    parts_stand(s, seq![c], blanks, 0);
    assert(s[0] == c);
    blanks_are_skipped(s, blanks, 1);
    one_command(s);
    let s = seq![c] + blanks + seq![bad] + rest;
    assert(stands_at(s, seq![c] + blanks + seq![bad] + rest, 0));
    parts_stand(s, seq![c] + blanks + seq![bad], rest, 0);
    parts_stand(s, seq![c] + blanks, seq![bad], 0);
    parts_stand(s, seq![c], blanks, 0);
    assert(seq![c][0] == s[0]);
    assert(seq![bad][0] == s[1int + blanks.len()]);
    blanks_are_skipped(s, blanks, 1);
    one_command(s);
}

//////////////////////////////////////////////////////////////////////////////
// Errors
//////////////////////////////////////////////////////////////////////////////

/// Whether a text lists errors: it has an `R` for each that is for the reader and a `W` for each
/// that is for the writer, in upper or lower case, and blanks.
pub open spec fn lists_errors(t: Seq<u8>) -> bool {
    forall|k: int|
        0 <= k < t.len() ==> (is_space(#[trigger] t[k]) || is_letter(t[k], 'R', 'r') || is_letter(
            t[k],
            'W',
            'w',
        ))
}

/// The errors that a text lists, in order.
pub open spec fn errors_of(t: Seq<u8>) -> Seq<ActionView>
    decreases t.len(),
{
    let error = Some(IoError { kind: ErrorKind::Other, cause: None });
    if t.len() == 0 {
        Seq::empty()
    } else if is_letter(t[0], 'R', 'r') {
        seq![ActionView::ReadError(error)] + errors_of(t.skip(1))
    } else if is_letter(t[0], 'W', 'w') {
        seq![ActionView::WriteError(error)] + errors_of(t.skip(1))
    } else {
        errors_of(t.skip(1))
    }
}

proof fn injected_of_list(s: Seq<u8>, i: nat, t: Seq<u8>)
    requires
        lists_errors(t),
        stands_at(s, t, i),
    ensures
        scenario::injected(s, i) == scenario::prefixed(
            errors_of(t),
            scenario::injected(s, i + t.len()),
        ),
    decreases t.len(),
{
    if t.len() == 0 {
        if let Ok((actions, _)) = scenario::injected(s, i) {
            assert(errors_of(t) + actions =~= actions);
        }
    } else {
        let rest = t.skip(1);
        assert(t[0] == s[i as int]);
        bytes_are_themselves(t[0]);
        assert forall|k: int| 0 <= k < rest.len() implies (is_space(#[trigger] rest[k])
            || is_letter(rest[k], 'R', 'r') || is_letter(rest[k], 'W', 'w')) by {
            assert(rest[k] == t[k + 1]);
        }
        assert forall|k: int| 0 <= k < rest.len() implies #[trigger] rest[k] == s[i + 1 + k] by {
            assert(t[k + 1] == s[i + (k + 1)]);
        }
        injected_of_list(s, i + 1, rest);
        let error = Some(IoError { kind: ErrorKind::Other, cause: None });
        if let Ok((actions, _)) = scenario::injected(s, i + t.len()) {
            let later = errors_of(rest) + actions;
            if is_letter(t[0], 'R', 'r') {
                assert(seq![ActionView::ReadError(error)] + later =~= errors_of(t) + actions);
            } else if is_letter(t[0], 'W', 'w') {
                assert(seq![ActionView::WriteError(error)] + later =~= errors_of(t) + actions);
            }
        }
    }
}

/// `E` injects the errors that are listed behind it, in order; another byte there is a problem.
pub proof fn listed_errors_are_injected(t: Seq<u8>, bad: u8, rest: Seq<u8>)
    requires
        lists_errors(t),
        bad != byte('|'),
        !is_space(bad),
        !is_letter(bad, 'R', 'r'),
        !is_letter(bad, 'W', 'w'),
    ensures
        scenario::parse(seq![byte('E')] + t) == Ok::<Contribution, Problem>(
            Contribution { actions: errors_of(t), name: None },
        ),
        scenario::parse(seq![byte('E')] + t + seq![bad] + rest) == Err::<Contribution, Problem>(
            Problem {
                position: 1 + t.len(),
                character: Some(bad),
                state: "waiting for R or W character to choose which error to inject"@,
            },
        ),
{
    let e = seq![byte('E')];
    let s = e + t;
    assert(stands_at(s, e + t, 0));
    parts_stand(s, e, t, 0);
    assert(s[0] == byte('E'));
    injected_of_list(s, 1, t);
    assert(errors_of(t) + Seq::<ActionView>::empty() =~= errors_of(t));
    one_command(s);
    let s = e + t + seq![bad] + rest;
    assert(stands_at(s, e + t + seq![bad] + rest, 0));
    parts_stand(s, e + t + seq![bad], rest, 0);
    parts_stand(s, e + t, seq![bad], 0);
    parts_stand(s, e, t, 0);
    assert(e[0] == s[0]);
    assert(seq![bad][0] == s[1int + t.len()]);
    bytes_are_themselves(bad);
    injected_of_list(s, 1, t);
    one_command(s);
}

} // verus!
