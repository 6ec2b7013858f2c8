//! Scenarios that are put together.

use crate::ascii;
use crate::scenario::{self, Contribution, Problem};
use vstd::prelude::*;

verus! {

/// The two scenarios, one behind the other.
pub open spec fn one_behind_other(a: Seq<u8>, b: Seq<u8>) -> Seq<u8> {
    a.push(ascii::BAR) + b
}

/// The problem, `offset` bytes further on.
pub open spec fn moved(problem: Problem, offset: nat) -> Problem {
    Problem { position: problem.position + offset, ..problem }
}

/// A scan whose end, or whose problem, is `offset` bytes further on.
spec fn moved_scan<T>(scan: Result<(T, nat), Problem>, offset: nat) -> Result<(T, nat), Problem> {
    match scan {
        Ok((value, end)) => Ok((value, end + offset)),
        Err(problem) => Err(moved(problem, offset)),
    }
}

//////////////////////////////////////////////////////////////////////////////
// A scan does not look back
//////////////////////////////////////////////////////////////////////////////

/// `b` stands at place `at` of `s`, and ends with it.
pub open spec fn ends_in(s: Seq<u8>, b: Seq<u8>, at: nat) -> bool {
    at + b.len() == s.len() && forall|i: int| 0 <= i < b.len() ==> #[trigger] b[i] == s[at + i]
}

proof fn skip_blanks_moved(s: Seq<u8>, b: Seq<u8>, at: nat, i: nat)
    requires
        ends_in(s, b, at),
    ensures
        scenario::skip_blanks(s, at + i) == at + scenario::skip_blanks(b, i),
    decreases b.len() - i,
{
    if i < b.len() {
        assert(b[i as int] == s[at as int + i]);
        skip_blanks_moved(s, b, at, i + 1);
    }
}

proof fn escape_moved(s: Seq<u8>, b: Seq<u8>, at: nat, i: nat)
    requires
        ends_in(s, b, at),
    ensures
        scenario::escape(s, at + i) == moved_scan(scenario::escape(b, i), at),
{
    if i < b.len() {
        assert(b[i as int] == s[at as int + i]);
    }
    if i + 1 < b.len() {
        assert(b[i as int + 1] == s[at as int + (i + 1)]);
    }
    if i + 2 < b.len() {
        assert(b[i as int + 2] == s[at as int + (i + 2)]);
    }
}

proof fn content_moved(s: Seq<u8>, b: Seq<u8>, at: nat, i: nat)
    requires
        ends_in(s, b, at),
    ensures
        scenario::content(s, at + i) == moved_scan(scenario::content(b, i), at),
    decreases b.len() - i,
{
    if i < b.len() {
        assert(b[i as int] == s[at as int + i]);
        if b[i as int] == ascii::BACKSLASH {
            escape_moved(s, b, at, i + 1);
            if let Ok((_, end)) = scenario::escape(b, i + 1) {
                content_moved(s, b, at, end);
            }
        } else if b[i as int] != ascii::BAR {
            content_moved(s, b, at, i + 1);
        }
    }
}

proof fn hex_number_moved(s: Seq<u8>, b: Seq<u8>, at: nat, i: nat, sum: nat)
    requires
        ends_in(s, b, at),
    ensures
        scenario::hex_number(s, at + i, sum) == moved_scan(scenario::hex_number(b, i, sum), at),
    decreases b.len() - i,
{
    if i < b.len() {
        assert(b[i as int] == s[at as int + i]);
        hex_number_moved(s, b, at, i + 1, sum);
        if let Some(d) = scenario::hex_value(b[i as int]) {
            hex_number_moved(s, b, at, i + 1, 16 * sum + d);
        }
    }
}

proof fn number_moved(s: Seq<u8>, b: Seq<u8>, at: nat, i: nat, sum: nat)
    requires
        ends_in(s, b, at),
    ensures
        scenario::number(s, at + i, sum) == moved_scan(scenario::number(b, i, sum), at),
    decreases b.len() - i,
{
    if i < b.len() {
        assert(b[i as int] == s[at as int + i]);
        number_moved(s, b, at, i + 1, sum);
        hex_number_moved(s, b, at, i + 1, 0);
        if let Some(d) = scenario::decimal_value(b[i as int]) {
            number_moved(s, b, at, i + 1, 10 * sum + d);
        }
    }
}

proof fn injected_moved(s: Seq<u8>, b: Seq<u8>, at: nat, i: nat)
    requires
        ends_in(s, b, at),
    ensures
        scenario::injected(s, at + i) == moved_scan(scenario::injected(b, i), at),
    decreases b.len() - i,
{
    if i < b.len() {
        assert(b[i as int] == s[at as int + i]);
        injected_moved(s, b, at, i + 1);
    }
}

proof fn command_moved(s: Seq<u8>, b: Seq<u8>, at: nat, i: nat)
    requires
        ends_in(s, b, at),
        i < b.len(),
    ensures
        scenario::command(s, at + i) == moved_scan(scenario::command(b, i), at),
{
    assert(b[i as int] == s[at as int + i]);
    skip_blanks_moved(s, b, at, i + 1);
    let j = scenario::skip_blanks(b, i + 1);
    content_moved(s, b, at, j);
    injected_moved(s, b, at, i + 1);
    number_moved(s, b, at, i + 1, 0);
    number_moved(s, b, at, j + 1, 0);
    if j < b.len() {
        assert(b[j as int] == s[at as int + j]);
    }
}

/// What a scenario gives from a place on does not depend on what stands before.
pub(crate) proof fn commands_moved(s: Seq<u8>, b: Seq<u8>, at: nat, i: nat)
    requires
        ends_in(s, b, at),
    ensures
        scenario::commands(s, at + i) == match scenario::commands(b, i) {
            Ok(given) => Ok::<Contribution, Problem>(given),
            Err(problem) => Err(moved(problem, at)),
        },
    decreases b.len() - i,
{
    if i < b.len() {
        command_moved(s, b, at, i);
        scenario::command_ends_behind(b, i);
        if let Ok((_, end)) = scenario::command(b, i) {
            commands_moved(s, b, at, end);
        }
    }
}

//////////////////////////////////////////////////////////////////////////////
// A scan that ends with the text ends with a bar
//////////////////////////////////////////////////////////////////////////////

/// `s` begins with `a`, and goes on with a bar.
spec fn goes_on(a: Seq<u8>, s: Seq<u8>) -> bool {
    &&& a.len() < s.len()
    &&& s[a.len() as int] == ascii::BAR
    &&& forall|i: int| 0 <= i < a.len() ==> #[trigger] a[i] == s[i]
}

/// The scan of `s` gives what the scan of `a` gives, and ends where that ends, or with the bar
/// behind it.
spec fn same_scan<T>(
    a: Seq<u8>,
    scan: Result<(T, nat), Problem>,
    longer: Result<(T, nat), Problem>,
) -> bool {
    scan matches Ok((value, end)) ==> (longer matches Ok((same, later)) && same == value && (later
        == end || (end == a.len() && later == end + 1)))
}

proof fn skip_blanks_goes_on(a: Seq<u8>, s: Seq<u8>, i: nat)
    requires
        goes_on(a, s),
        i <= a.len(),
    ensures
        scenario::skip_blanks(s, i) == scenario::skip_blanks(a, i),
    decreases a.len() - i,
{
    if i < a.len() {
        assert(a[i as int] == s[i as int]);
        skip_blanks_goes_on(a, s, i + 1);
    }
}

proof fn content_goes_on(a: Seq<u8>, s: Seq<u8>, i: nat)
    requires
        goes_on(a, s),
        i <= a.len(),
    ensures
        same_scan(a, scenario::content(a, i), scenario::content(s, i)),
    decreases a.len() - i,
{
    if i < a.len() {
        assert(a[i as int] == s[i as int]);
        if a[i as int] == ascii::BACKSLASH {
            if let Ok((_, end)) = scenario::escape(a, i + 1) {
                assert(a[i as int + 1] == s[i as int + 1]);
                if i + 2 < a.len() {
                    assert(a[i as int + 2] == s[i as int + 2]);
                }
                if i + 3 < a.len() {
                    assert(a[i as int + 3] == s[i as int + 3]);
                }
                content_goes_on(a, s, end);
            }
        } else if a[i as int] != ascii::BAR {
            content_goes_on(a, s, i + 1);
        }
    }
}

proof fn hex_number_goes_on(a: Seq<u8>, s: Seq<u8>, i: nat, sum: nat)
    requires
        goes_on(a, s),
        i <= a.len(),
    ensures
        same_scan(a, scenario::hex_number(a, i, sum), scenario::hex_number(s, i, sum)),
    decreases a.len() - i,
{
    if i < a.len() {
        assert(a[i as int] == s[i as int]);
        hex_number_goes_on(a, s, i + 1, sum);
        if let Some(d) = scenario::hex_value(a[i as int]) {
            hex_number_goes_on(a, s, i + 1, 16 * sum + d);
        }
    }
}

proof fn number_goes_on(a: Seq<u8>, s: Seq<u8>, i: nat, sum: nat)
    requires
        goes_on(a, s),
        i <= a.len(),
    ensures
        same_scan(a, scenario::number(a, i, sum), scenario::number(s, i, sum)),
    decreases a.len() - i,
{
    if i < a.len() {
        assert(a[i as int] == s[i as int]);
        number_goes_on(a, s, i + 1, sum);
        hex_number_goes_on(a, s, i + 1, 0);
        if let Some(d) = scenario::decimal_value(a[i as int]) {
            number_goes_on(a, s, i + 1, 10 * sum + d);
        }
    }
}

proof fn injected_goes_on(a: Seq<u8>, s: Seq<u8>, i: nat)
    requires
        goes_on(a, s),
        i <= a.len(),
    ensures
        same_scan(a, scenario::injected(a, i), scenario::injected(s, i)),
    decreases a.len() - i,
{
    if i < a.len() {
        assert(a[i as int] == s[i as int]);
        injected_goes_on(a, s, i + 1);
    }
}

proof fn command_goes_on(a: Seq<u8>, s: Seq<u8>, i: nat)
    requires
        goes_on(a, s),
        i < a.len(),
    ensures
        same_scan(a, scenario::command(a, i), scenario::command(s, i)),
{
    assert(a[i as int] == s[i as int]);
    skip_blanks_goes_on(a, s, i + 1);
    scenario::skip_blanks_ends(a, i + 1);
    let j = scenario::skip_blanks(a, i + 1);
    content_goes_on(a, s, j);
    injected_goes_on(a, s, i + 1);
    number_goes_on(a, s, i + 1, 0);
    if j < a.len() {
        assert(a[j as int] == s[j as int]);
        number_goes_on(a, s, j + 1, 0);
    }
}

proof fn commands_go_on(a: Seq<u8>, s: Seq<u8>, i: nat)
    requires
        goes_on(a, s),
        i <= a.len(),
        scenario::commands(a, i) is Ok,
    ensures
        scenario::commands(s, i) == match scenario::commands(s, a.len() + 1) {
            Ok(later) => Ok::<Contribution, Problem>(
                scenario::joined(scenario::commands(a, i)->Ok_0, later),
            ),
            Err(problem) => Err(problem),
        },
    decreases a.len() - i,
{
    let behind = scenario::commands(s, a.len() + 1);
    if i == a.len() {
        if let Ok(later) = behind {
            assert(scenario::joined(scenario::nothing(), later) =~= later);
        }
    } else {
        scenario::command_ends_behind(a, i);
        command_goes_on(a, s, i);
        let (first, end) = scenario::command(a, i)->Ok_0;
        let rest = scenario::commands(a, end)->Ok_0;
        commands_go_on(a, s, end);
        if let Ok(later) = behind {
            assert(scenario::joined(first, scenario::joined(rest, later)) =~= scenario::joined(
                scenario::joined(first, rest),
                later,
            ));
            assert(scenario::joined(scenario::nothing(), later) =~= later);
            if end == a.len() {
                assert(scenario::joined(first, later) =~= scenario::joined(
                    scenario::joined(first, scenario::nothing()),
                    later,
                ));
            }
        }
    }
}

/// A bar separates: a scenario, a bar and another scenario give what the first gives and then
/// what the second gives; of two names the later one counts. What is wrong with the second is wrong with the whole, that much
/// further on.
pub proof fn scenarios_concatenate(a: Seq<u8>, b: Seq<u8>)
    requires
        scenario::parse(a) is Ok,
    ensures
        scenario::parse(one_behind_other(a, b)) == match scenario::parse(b) {
            Ok(later) => {
                let first = scenario::parse(a)->Ok_0;
                Ok::<Contribution, Problem>(
                    Contribution {
                        actions: first.actions + later.actions,
                        name: if later.name is Some {
                            later.name
                        } else {
                            first.name
                        },
                    },
                )
            },
            Err(problem) => Err(moved(problem, a.len() + 1)),
        },
{
    let s = one_behind_other(a, b);
    assert(goes_on(a, s));
    assert(ends_in(s, b, a.len() + 1));
    commands_go_on(a, s, 0);
    commands_moved(s, b, a.len() + 1, 0);
}

} // verus!
