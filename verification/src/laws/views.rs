//! The mathematical values tell all that there is to tell.

use crate::action::{self, Action, ActionView};
use crate::duration::Duration;
use crate::error::IoError;
use crate::failure::{self, Failure, Refusal};
use crate::mock::{Event, Incoming, Step};
use crate::scenario::Problem;
use crate::script::{EventView, FailureView, IncomingView, RefusalView, StepView};
use crate::text_scenario::ParseError;
use vstd::prelude::*;

verus! {

/// A span is told in nanoseconds.
pub proof fn span_is_in_nanoseconds(span: Duration)
    ensures
        span@ == span.secs * 1_000_000_000 + span.nanos,
{
}

/// The value of an action tells its kind, and all that the action has.
pub proof fn action_is_told(a: Action)
    ensures
        match a {
            Action::Read(data) => a@ == ActionView::Read(data@),
            Action::Write(data) => a@ == ActionView::Write(data@),
            Action::Wait(span) => a@ == ActionView::Wait(span@),
            Action::ReadError(error) => a@ == ActionView::ReadError(error),
            Action::WriteError(error) => a@ == ActionView::WriteError(error),
            Action::WriteShutdown(seen) => a@ == ActionView::WriteShutdown(seen),
            Action::ReadZeroes(n) => a@ == ActionView::ReadZeroes(n as nat),
            Action::WriteZeroes(n) => a@ == ActionView::WriteZeroes(n as nat),
            Action::IgnoreWritten(n) => a@ == ActionView::IgnoreWritten(n as nat),
            Action::ReadEof(seen) => a@ == ActionView::ReadEof(seen),
            Action::StopChecking => a@ == ActionView::StopChecking,
        },
{
}

/// The values of some actions are the values of each, in order.
pub proof fn actions_are_told(actions: Seq<Action>)
    ensures
        action::views(actions).len() == actions.len(),
        forall|i: int|
            0 <= i < actions.len() ==> (#[trigger] action::views(actions)[i]) == actions[i]@,
{
}

/// The value of a look at the channel tells what came, whatever it is.
pub proof fn look_is_told(incoming: Incoming)
    ensures
        match incoming {
            Incoming::Pending => incoming@ is Pending,
            Incoming::Closed => incoming@ is Closed,
            Incoming::Action(a) => incoming@ == IncomingView::Action(a@),
        },
        Event::Begin@ is Begin,
        Event::Opening(incoming)@ == EventView::Opening(incoming@),
        Event::Incoming(incoming)@ == EventView::Incoming(incoming@),
{
}

/// The value of a failure tells its kind, and all that the failure has.
pub proof fn failure_is_told(failure: Failure, error: IoError)
    ensures
        match failure {
            Failure::Bytes { expected, actual, message } => failure@ == (FailureView::Bytes {
                expected: expected@,
                actual: actual@,
                message: message@,
            }),
            Failure::NonZero { byte, message } => failure@ == (FailureView::NonZero {
                byte,
                message: message@,
            }),
            Failure::Script { message } => failure@ == (FailureView::Script { message: message@ }),
        },
        Refusal::Io(error)@ == RefusalView::Io(error),
        Refusal::Failure(failure)@ == RefusalView::Failure(failure@),
        failure::finish_view(Ok(())) is Ok,
        failure::finish_view(Err(failure)) == Err::<(), FailureView>(failure@),
{
}

/// The value of a step tells what is to be done.
pub proof fn step_is_told<T: View>(step: Step<T>)
    ensures
        match step {
            Step::Ready { result, wake_reader } => {
                &&& step@ matches StepView::Ready { result: told, wake_reader: wakes }
                &&& wakes == wake_reader
                &&& match result {
                    Ok(value) => told == Ok::<T::V, IoError>(value@),
                    Err(error) => told == Err::<T::V, IoError>(error),
                }
            },
            Step::Sleep(span) => step@ == StepView::<T::V>::Sleep(span@),
            Step::AwaitWrite => step@ is AwaitWrite,
            Step::Pending => step@ is Pending,
            Step::Open => step@ is Open,
            Step::Poll => step@ is Poll,
            Step::Proceed => step@ is Proceed,
            Step::Panic(failure) => step@ == StepView::<T::V>::Panic(failure@),
        },
{
}

/// The value of a problem with a scenario tells where it is and what it is.
pub proof fn problem_is_told(error: ParseError)
    ensures
        error@ == (Problem {
            position: error.position as nat,
            character: error.chararter,
            state: error.state@,
        }),
{
}

} // verus!
