//! The channels of `tokio` that connect a mock to its handle and to the reader of its report,
//! and the clock of `tokio`.

use crate::action::{Action, ActionView};
use crate::duration::Duration;
use crate::mock::Incoming;
use crate::outcome::MockOutcome;
use crate::script::IncomingView;
use futures_core::Stream;
use std::pin::Pin;
use std::task::Poll;
use tokio::sync::mpsc::{UnboundedReceiver, UnboundedSender};
use tokio::sync::oneshot;
use tokio_stream::wrappers::UnboundedReceiverStream;
use vstd::prelude::*;

verus! {

/// `tokio::sync::mpsc::UnboundedSender`.
#[verifier::external_type_specification]
#[verifier::external_body]
#[verifier::reject_recursive_types(T)]
pub struct ExUnboundedSender<T>(tokio::sync::mpsc::UnboundedSender<T>);

/// `tokio::sync::mpsc::UnboundedReceiver`.
#[verifier::external_type_specification]
#[verifier::external_body]
#[verifier::reject_recursive_types(T)]
pub struct ExUnboundedReceiver<T>(tokio::sync::mpsc::UnboundedReceiver<T>);

/// `tokio_stream::wrappers::UnboundedReceiverStream`.
#[verifier::external_type_specification]
#[verifier::external_body]
#[verifier::reject_recursive_types(T)]
pub struct ExUnboundedReceiverStream<T>(tokio_stream::wrappers::UnboundedReceiverStream<T>);

/// `tokio::sync::oneshot::Sender`.
#[verifier::external_type_specification]
#[verifier::external_body]
#[verifier::reject_recursive_types(T)]
pub struct ExOneshotSender<T>(tokio::sync::oneshot::Sender<T>);

/// `tokio::sync::oneshot::Receiver`.
#[verifier::external_type_specification]
#[verifier::external_body]
#[verifier::reject_recursive_types(T)]
pub struct ExOneshotReceiver<T>(tokio::sync::oneshot::Receiver<T>);

/// `tokio::sync::oneshot::error::RecvError`, which the receiver speaks of as a future.
#[verifier::external_type_specification]
#[verifier::external_body]
pub struct ExRecvError(tokio::sync::oneshot::error::RecvError);

/// `tokio::time::Instant`.
#[verifier::external_type_specification]
#[verifier::external_body]
pub struct ExInstant(tokio::time::Instant);

/// `std::task::Context`.
#[verifier::external_type_specification]
#[verifier::external_body]
pub struct ExContext<'a>(std::task::Context<'a>);

/// The channel that a sender of actions belongs to.
pub uninterp spec fn sender_line(sender: UnboundedSender<Action>) -> nat;

/// The channel that a receiver of actions belongs to.
pub uninterp spec fn receiver_line(receiver: UnboundedReceiver<Action>) -> nat;

/// The channel that a stream of actions belongs to.
pub uninterp spec fn stream_line(stream: UnboundedReceiverStream<Action>) -> nat;

/// The channel that the sender of a report belongs to.
pub uninterp spec fn reporter_line(sender: oneshot::Sender<MockOutcome>) -> nat;

/// The channel that the receiver of a report belongs to.
pub uninterp spec fn outcome_line(receiver: oneshot::Receiver<MockOutcome>) -> nat;

/// The actions that a channel has accepted from this sender, in the order in which it did.
pub uninterp spec fn sent(sender: UnboundedSender<Action>) -> Seq<ActionView>;

/// The actions that this sender has offered to its channel, in the order in which it did,
/// whether or not the channel accepted them.
pub uninterp spec fn offered(sender: UnboundedSender<Action>) -> Seq<ActionView>;

/// What came of the looks for the next action of a stream, in the order in which they were made.
pub uninterp spec fn looks(stream: UnboundedReceiverStream<Action>) -> Seq<IncomingView>;

/// The times since an instant that were read, in nanoseconds, in the order in which they were.
pub uninterp spec fn readings(start: tokio::time::Instant) -> Seq<nat>;

/// Opens a channel for actions, by `tokio::sync::mpsc::unbounded_channel`: the two ends belong to
/// the same channel, and nothing has been sent yet. That what the sender sends comes out of the
/// receiver, later, is not stated.
#[verifier::external_body]
pub(crate) fn action_channel() -> (ends: (UnboundedSender<Action>, UnboundedReceiver<Action>))
    ensures
        sent(ends.0) == Seq::<ActionView>::empty(),
        offered(ends.0) == Seq::<ActionView>::empty(),
        sender_line(ends.0) == receiver_line(ends.1),
{
    tokio::sync::mpsc::unbounded_channel()
}

/// Offers an action to the channel, by `UnboundedSender::send`. Either the channel accepts it, or
/// it is closed and hands the action back. Whether it is closed lies with the receiver; a closed
/// channel does not open again, so that once it has refused an action it accepts none.
#[verifier::external_body]
pub(crate) fn send_action(sender: &mut UnboundedSender<Action>, action: Action) -> (reply: Result<
    (),
    Action,
>)
    ensures
        sender_line(*final(sender)) == sender_line(*old(sender)),
        offered(*final(sender)) == offered(*old(sender)).push(action@),
        match reply {
            Ok(_) => {
                &&& sent(*old(sender)) == offered(*old(sender))
                &&& sent(*final(sender)) == sent(*old(sender)).push(action@)
            },
            Err(back) => {
                &&& back == action
                &&& sent(*final(sender)) == sent(*old(sender))
                &&& sent(*final(sender)).len() < offered(*final(sender)).len()
            },
        },
{
    sender.send(action).map_err(|refused| refused.0)
}

/// Makes a stream of a receiver, by `UnboundedReceiverStream::new`. It belongs to the channel of
/// the receiver, and nobody has looked for an action of it yet.
#[verifier::external_body]
pub(crate) fn action_stream(receiver: UnboundedReceiver<Action>) -> (stream:
    UnboundedReceiverStream<Action>)
    ensures
        looks(stream) == Seq::<IncomingView>::empty(),
        stream_line(stream) == receiver_line(receiver),
{
    UnboundedReceiverStream::new(receiver)
}

/// Looks for the next action of a stream, by `poll_next` of `futures_core::Stream`. Whether there
/// is one lies with the senders; if there is none for now, the task of `context` is woken when
/// there is. Once the stream has said that no more actions come, none comes.
#[verifier::external_body]
pub(crate) fn next_action(
    stream: &mut UnboundedReceiverStream<Action>,
    context: &mut std::task::Context<'_>,
) -> (incoming: Incoming)
    ensures
        stream_line(*final(stream)) == stream_line(*old(stream)),
        looks(*final(stream)) == looks(*old(stream)).push(incoming@),
        incoming is Action ==> !looks(*old(stream)).contains(IncomingView::Closed),
{
    match Pin::new(stream).poll_next(context) {
        Poll::Pending => Incoming::Pending,
        Poll::Ready(None) => Incoming::Closed,
        Poll::Ready(Some(action)) => Incoming::Action(action),
    }
}

/// Opens a channel for one report, by `tokio::sync::oneshot::channel`: the two ends belong to the
/// same channel.
#[verifier::external_body]
pub(crate) fn report_channel() -> (ends: (
    oneshot::Sender<MockOutcome>,
    oneshot::Receiver<MockOutcome>,
))
    ensures
        reporter_line(ends.0) == outcome_line(ends.1),
{
    oneshot::channel()
}

/// What is left of a report that was sent. Only sending a report makes one.
pub struct Receipt {
    report: MockOutcome,
    line: Ghost<nat>,
}

impl Receipt {
    /// The report that was sent.
    pub closed spec fn report(self) -> MockOutcome {
        self.report
    }

    /// The channel through which it was sent.
    pub closed spec fn line(self) -> nat {
        self.line@
    }
}

/// Sends the report, by `oneshot::Sender::send`; the receipt tells which report that was, and
/// through which channel it was sent. It is not stated that the report is received: the receiver
/// may be gone.
#[verifier::external_body]
pub(crate) fn send_report(sender: oneshot::Sender<MockOutcome>, report: MockOutcome) -> (receipt:
    Receipt)
    ensures
        receipt.report() == report,
        receipt.line() == reporter_line(sender),
{
    let line = Ghost(reporter_line(sender));
    let _ = sender.send(report);
    Receipt { report, line }
}

/// The present, by `tokio::time::Instant::now`. No time since then has been read yet.
#[verifier::external_body]
pub(crate) fn start_clock() -> (start: tokio::time::Instant)
    ensures
        readings(start) == Seq::<nat>::empty(),
{
    tokio::time::Instant::now()
}

/// Reads the time since `start`, by `tokio::time::Instant::elapsed`. The part below a second is
/// given as less than a thousand million nanoseconds. The clock is monotonic: no reading is
/// shorter than the one before. What time it is lies with the clock, and is not stated.
#[verifier::external_body]
pub(crate) fn elapsed(start: &mut tokio::time::Instant) -> (span: Duration)
    ensures
        span.nanos < 1_000_000_000,
        readings(*final(start)) == readings(*old(start)).push(span@),
        readings(*old(start)).len() > 0 ==> readings(*old(start)).last() <= span@,
{
    let span = start.elapsed();
    Duration { secs: span.as_secs(), nanos: span.subsec_nanos() }
}

} // verus!
