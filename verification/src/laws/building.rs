//! A scenario is a run of calls.

use crate::action::ActionView;
use crate::builder::{self, BuilderView};
use crate::handle::{self, Handle};
use crate::script;
use vstd::prelude::*;

verus! {

/// The builder after the call that sequences an action: a shutdown also has shutdowns checked.
pub open spec fn called(builder: BuilderView, a: ActionView) -> BuilderView {
    if a is WriteShutdown {
        builder.checking_shutdown().with(a)
    } else {
        builder.with(a)
    }
}

/// The builder after the calls that sequence some actions.
pub open spec fn all_called(builder: BuilderView, actions: Seq<ActionView>) -> BuilderView
    decreases actions.len(),
{
    if actions.len() == 0 {
        builder
    } else {
        called(all_called(builder, actions.drop_last()), actions.last())
    }
}

/// To sequence the actions of a scenario is equivalent to calling the methods that sequence
/// them, one after the other.
pub proof fn scenario_is_a_run_of_calls(builder: BuilderView, actions: Seq<ActionView>)
    ensures
        builder.extended(actions, None) == all_called(builder, actions),
    decreases actions.len(),
{
    if actions.len() == 0 {
        assert(builder.actions + actions =~= builder.actions);
    } else {
        let before = actions.drop_last();
        scenario_is_a_run_of_calls(builder, before);
        assert(builder.actions + actions =~= (builder.actions + before).push(actions.last()));
        assert(actions[actions.len() - 1] == actions.last());
        if builder::has_shutdown(before) {
            let i = choose|i: int| 0 <= i < before.len() && #[trigger] before[i] is WriteShutdown;
            assert(actions[i] is WriteShutdown);
        }
        if builder::has_shutdown(actions) && !(actions.last() is WriteShutdown) {
            let i = choose|i: int| 0 <= i < actions.len() && #[trigger] actions[i] is WriteShutdown;
            assert(before[i] is WriteShutdown);
        }
    }
}

/// A call that sequences an action puts it at the end of the script, and changes nothing else; to
/// have shutdowns checked changes nothing else either.
pub proof fn call_adds_to_the_end(builder: BuilderView, a: ActionView)
    ensures
        builder.with(a).actions == builder.actions.push(a),
        builder.with(a).name == builder.name,
        builder.with(a).shutdown_checking_enabled == builder.shutdown_checking_enabled,
        builder.checking_shutdown().actions == builder.actions,
        builder.checking_shutdown().name == builder.name,
        builder.checking_shutdown().shutdown_checking_enabled,
{
}

/// A scenario puts its actions at the end of the script in their order, sets the name if it has
/// one, and has shutdowns checked if it has one.
pub proof fn scenario_adds_to_the_end(
    builder: BuilderView,
    actions: Seq<ActionView>,
    name: Option<Seq<char>>,
)
    ensures
        ({
            let after = builder.extended(actions, name);
            &&& after.actions == builder.actions + actions
            &&& after.name == if name is Some {
                name->0
            } else {
                builder.name
            }
            &&& after.shutdown_checking_enabled == (builder.shutdown_checking_enabled || exists|
                i: int,
            |
                0 <= i < actions.len() && #[trigger] actions[i] is WriteShutdown)
        }),
{
}

/// A mock begins with the script, the name and the setting of its builder: it objects to
/// departures, waits for nothing, and nothing was read, written or reported. There is a report to
/// be made if there is somewhere for it to go.
pub proof fn mock_begins_with_the_script(builder: BuilderView, reporter: Option<nat>)
    ensures
        ({
            let m = builder.start(reporter);
            &&& m.actions == builder.actions
            &&& m.name == builder.name
            &&& m.shutdown_checking_enabled == builder.shutdown_checking_enabled
            &&& m.checks_enabled
            &&& m.waiting is None
            &&& m.read_bytes == 0
            &&& m.written_bytes == 0
            &&& m.report is None
            &&& m.armed == reporter is Some
            &&& m.reporter == reporter
            &&& m == script::start(
                builder.actions,
                builder.name,
                builder.shutdown_checking_enabled,
                reporter,
            )
        }),
{
}

/// A wait lasts as long as it is asked to, but a millisecond at least.
pub proof fn wait_lasts_a_milli(span: nat)
    ensures
        builder::at_least_a_milli(span) >= span,
        builder::at_least_a_milli(span) >= 1_000_000,
        builder::at_least_a_milli(span) == span || builder::at_least_a_milli(span) == 1_000_000,
{
}

/// What a handle sends goes behind what it sent before, whatever it is; what is refused is not
/// sent, and was offered all the same.
pub proof fn sending_adds_to_the_end(before: Handle, after: Handle, a: ActionView)
    ensures
        handle::accepted(before, after, a) ==> {
            &&& after@ == before@.push(a)
            &&& after.offered() == before.offered().push(a)
            &&& after.line() == before.line()
            &&& before.is_open()
            &&& after.is_open()
        },
        handle::refused(before, after, a) ==> {
            &&& after@ == before@
            &&& after.offered() == before.offered().push(a)
            &&& after.line() == before.line()
            &&& !after.is_open()
        },
        before.is_open() == (before@ == before.offered()),
{
}

} // verus!
