//! What is wrong with a text does not depend on what comes later.

use crate::ascii;
use crate::scenario::{self, Problem};
use vstd::prelude::*;

verus! {

/// Whether two texts both go on beyond place `k`, and agree up to it.
pub open spec fn agree(a: Seq<u8>, b: Seq<u8>, k: nat) -> bool {
    &&& k < a.len()
    &&& k < b.len()
    &&& forall|i: int| 0 <= i <= k ==> #[trigger] a[i] == b[i]
}

/// Whether a scan of one text, if it ends or fails at place `k` or before, goes the same way in
/// the other; `i` is where it begins, before which it does not fail.
spec fn same_so_far<T>(
    scan: Result<(T, nat), Problem>,
    other: Result<(T, nat), Problem>,
    i: nat,
    k: nat,
) -> bool {
    match scan {
        Ok((_, end)) => end <= k ==> other == scan,
        Err(problem) => i <= problem.position && (problem.position <= k ==> other == scan),
    }
}

proof fn skip_blanks_so_far(a: Seq<u8>, b: Seq<u8>, i: nat, k: nat)
    requires
        agree(a, b, k),
        i <= a.len(),
        scenario::skip_blanks(a, i) <= k,
    ensures
        scenario::skip_blanks(b, i) == scenario::skip_blanks(a, i),
    decreases a.len() - i,
{
    scenario::skip_blanks_ends(a, i);
    assert(a[i as int] == b[i as int]);
    if scenario::is_blank(a[i as int]) {
        skip_blanks_so_far(a, b, i + 1, k);
    }
}

proof fn escape_so_far(a: Seq<u8>, b: Seq<u8>, i: nat, k: nat)
    requires
        agree(a, b, k),
        i <= a.len(),
    ensures
        same_so_far(scenario::escape(a, i), scenario::escape(b, i), i, k),
{
    if i <= k {
        assert(a[i as int] == b[i as int]);
    }
    if i + 1 <= k {
        assert(a[i as int + 1] == b[i as int + 1]);
    }
    if i + 2 <= k {
        assert(a[i as int + 2] == b[i as int + 2]);
    }
}

proof fn content_so_far(a: Seq<u8>, b: Seq<u8>, i: nat, k: nat)
    requires
        agree(a, b, k),
        i <= a.len(),
    ensures
        same_so_far(scenario::content(a, i), scenario::content(b, i), i, k),
    decreases a.len() - i,
{
    scenario::content_ends(a, i);
    if i < a.len() && a[i as int] != ascii::BAR {
        if i <= k {
            assert(a[i as int] == b[i as int]);
        }
        if a[i as int] == ascii::BACKSLASH {
            escape_so_far(a, b, i + 1, k);
            if let Ok((_, end)) = scenario::escape(a, i + 1) {
                content_so_far(a, b, end, k);
                scenario::content_ends(a, end);
            }
        } else {
            content_so_far(a, b, i + 1, k);
            scenario::content_ends(a, i + 1);
        }
    } else if i <= k {
        assert(a[i as int] == b[i as int]);
    }
}

proof fn hex_number_so_far(a: Seq<u8>, b: Seq<u8>, i: nat, sum: nat, k: nat)
    requires
        agree(a, b, k),
        i <= a.len(),
        sum <= u64::MAX,
    ensures
        same_so_far(scenario::hex_number(a, i, sum), scenario::hex_number(b, i, sum), i, k),
    decreases a.len() - i,
{
    scenario::hex_number_ends(a, i, sum);
    if i <= k {
        assert(a[i as int] == b[i as int]);
    }
    if i < a.len() {
        hex_number_so_far(a, b, i + 1, sum, k);
        scenario::hex_number_ends(a, i + 1, sum);
        if let Some(d) = scenario::hex_value(a[i as int]) {
            if 16 * sum + d <= u64::MAX {
                hex_number_so_far(a, b, i + 1, 16 * sum + d, k);
            }
        }
    }
}

proof fn number_so_far(a: Seq<u8>, b: Seq<u8>, i: nat, sum: nat, k: nat)
    requires
        agree(a, b, k),
        i <= a.len(),
        sum <= u64::MAX,
    ensures
        same_so_far(scenario::number(a, i, sum), scenario::number(b, i, sum), i, k),
    decreases a.len() - i,
{
    scenario::number_ends(a, i, sum);
    if i <= k {
        assert(a[i as int] == b[i as int]);
    }
    if i < a.len() {
        number_so_far(a, b, i + 1, sum, k);
        hex_number_so_far(a, b, i + 1, 0, k);
        if let Some(d) = scenario::decimal_value(a[i as int]) {
            if 10 * sum + d <= u64::MAX {
                number_so_far(a, b, i + 1, 10 * sum + d, k);
            }
        }
    }
}

proof fn injected_so_far(a: Seq<u8>, b: Seq<u8>, i: nat, k: nat)
    requires
        agree(a, b, k),
        i <= a.len(),
    ensures
        same_so_far(scenario::injected(a, i), scenario::injected(b, i), i, k),
    decreases a.len() - i,
{
    scenario::injected_ends(a, i);
    if i <= k {
        assert(a[i as int] == b[i as int]);
    }
    if i < a.len() {
        injected_so_far(a, b, i + 1, k);
        scenario::injected_ends(a, i + 1);
    }
}

proof fn command_so_far(a: Seq<u8>, b: Seq<u8>, i: nat, k: nat)
    requires
        agree(a, b, k),
        i < a.len(),
    ensures
        same_so_far(scenario::command(a, i), scenario::command(b, i), i, k),
{
    scenario::command_ends_behind(a, i);
    if i <= k {
        assert(a[i as int] == b[i as int]);
    }
    scenario::skip_blanks_ends(a, i + 1);
    let j = scenario::skip_blanks(a, i + 1);
    if j <= k {
        skip_blanks_so_far(a, b, i + 1, k);
        assert(a[j as int] == b[j as int]);
    }
    content_so_far(a, b, j, k);
    scenario::content_ends(a, j);
    injected_so_far(a, b, i + 1, k);
    number_so_far(a, b, i + 1, 0, k);
    if j < a.len() {
        number_so_far(a, b, j + 1, 0, k);
        scenario::number_ends(a, j + 1, 0);
    }
}

proof fn commands_so_far(a: Seq<u8>, b: Seq<u8>, i: nat, k: nat)
    requires
        agree(a, b, k),
        i <= a.len(),
    ensures
        scenario::commands(a, i) matches Err(problem) ==> {
            &&& i <= problem.position
            &&& problem.position <= k ==> scenario::commands(b, i) == scenario::commands(a, i)
        },
    decreases a.len() - i,
{
    if i < a.len() {
        scenario::command_ends_behind(a, i);
        command_so_far(a, b, i, k);
        if let Ok((_, end)) = scenario::command(a, i) {
            commands_so_far(a, b, end, k);
        }
    }
}

/// Texts that agree up to the byte that was not expected fail alike: what comes behind it does not
/// matter.
pub proof fn problem_does_not_depend_on_what_follows(a: Seq<u8>, b: Seq<u8>)
    requires
        scenario::parse(a) matches Err(problem) && agree(a, b, problem.position),
    ensures
        scenario::parse(b) == scenario::parse(a),
{
    commands_so_far(a, b, 0, scenario::parse(a)->Err_0.position);
}

} // verus!
