//! The handle that a caller holds on a subscription, and the request by
//! which it asks the driver to end it.

use vstd::prelude::*;
use vstd::string::*;
use crate::channels::{send_failure_text, unbounded, ChannelRx, ChannelTx, Polled, SendFailure};
use crate::error::{Error, ErrorView};
use crate::id::SubscriptionId;
use crate::model::{Delivery, Outcome};

verus! {

/// A message sent to the subscription driver to terminate the subscription
/// with the given parameters.
///
/// We expect the driver to use the `result_tx` channel to communicate the
/// result of the termination request to the caller that made it.
pub struct TerminateSubscription {
    pub id: SubscriptionId,
    pub query: String,
    pub result_tx: ChannelTx<Outcome>,
}

impl Clone for TerminateSubscription {
    /// The same request, with one more sender for its result channel.
    fn clone(&self) -> (other: TerminateSubscription)
        ensures
            other.id == self.id,
            other.query == self.query,
            other.result_tx.capacity() == self.result_tx.capacity(),
            other.result_tx.offered() == Seq::<Outcome>::empty(),
            other.result_tx.sent() == Seq::<Outcome>::empty(),
    {
        TerminateSubscription {
            id: self.id.clone(),
            query: self.query.clone(),
            result_tx: self.result_tx.clone(),
        }
    }
}

/// An interface that can be used to receive events for a particular
/// subscription: in the order in which they were published, until the sender
/// is dropped.
pub struct Subscription {
    /// The query for which events will be produced.
    pub query: String,
    /// The ID of this subscription (automatically assigned).
    pub id: SubscriptionId,
    // Our internal result event receiver for this subscription.
    event_rx: ChannelRx<Delivery>,
    // Allows us to gracefully terminate this subscription.
    terminate_tx: ChannelTx<TerminateSubscription>,
}

/// What a termination returns for the failure to enqueue its request on the
/// control channel: a transport error.
pub fn termination_send_error(failure: SendFailure) -> (e: Error)
    ensures
        e@ == ErrorView::Transport(send_failure_text(failure)),
{
    match failure {
        SendFailure::Closed => Error::Transport(
            String::from_str("failed to send message to internal channel: channel closed"),
        ),
        SendFailure::Full => Error::Transport(
            String::from_str("failed to send message to internal channel: no available capacity"),
        ),
    }
}

/// The message of the error for a result channel that closed without a reply.
pub open spec fn no_reply_text() -> Seq<char> {
    "failed to hear back from subscription termination request"@
}

/// What a termination returns for what came back on its result channel: the
/// driver's answer, or an internal error where the channel was closed without
/// one.
pub fn termination_result(reply: Option<Outcome>) -> (r: Outcome)
    ensures
        match reply {
            Some(result) => r == result,
            None => r is Err && r->Err_0@ == ErrorView::Internal(no_reply_text()),
        },
{
    match reply {
        Some(result) => result,
        None => Err(
            Error::Internal(
                String::from_str("failed to hear back from subscription termination request"),
            ),
        ),
    }
}

impl Subscription {
    /// The id of the subscription: the field `id`.
    pub closed spec fn id(&self) -> SubscriptionId {
        self.id
    }

    /// The query of the subscription: the field `query`.
    pub closed spec fn query(&self) -> String {
        self.query
    }

    /// The control channel on which this handle asks for its termination.
    pub closed spec fn terminate_tx(&self) -> ChannelTx<TerminateSubscription> {
        self.terminate_tx
    }

    /// The receiving half of the event channel of this handle.
    pub closed spec fn event_rx(&self) -> ChannelRx<Delivery> {
        self.event_rx
    }

    /// The handle on the subscription `id` for `query`, which takes its
    /// events from `event_rx` and asks for its termination on
    /// `terminate_tx`.
    pub fn new(
        id: SubscriptionId,
        query: String,
        event_rx: ChannelRx<Delivery>,
        terminate_tx: ChannelTx<TerminateSubscription>,
    ) -> (subscription: Subscription)
        ensures
            subscription.id() == id,
            subscription.query() == query,
            subscription.event_rx() == event_rx,
            subscription.terminate_tx() == terminate_tx,
    {
        Subscription { id, query, event_rx, terminate_tx }
    }

    /// The receiving half of the event channel, for one who awaits the next
    /// event.
    pub fn event_rx_mut(&mut self) -> (rx: &mut ChannelRx<Delivery>)
        ensures
            *rx == old(self).event_rx(),
            final(self).event_rx() == *final(rx),
            final(self).id() == old(self).id(),
            final(self).query() == old(self).query(),
            final(self).terminate_tx() == old(self).terminate_tx(),
    {
        &mut self.event_rx
    }

    /// The next event that waits for this subscription, without waiting for
    /// one: an event that the router forwarded, or an error that the driver
    /// passed on. It is what the event channel of this handle takes next.
    pub fn try_next(&mut self) -> (next: Polled<Delivery>)
        ensures
            final(self).id() == old(self).id(),
            final(self).query() == old(self).query(),
            final(self).terminate_tx() == old(self).terminate_tx(),
            final(self).event_rx().received() == old(self).event_rx().received() + next.taken(),
    {
        self.event_rx.try_recv()
    }

    /// Gives up the handle for the three things that its termination needs:
    /// the control channel, the request to enqueue on it, which names this
    /// subscription and carries the sender of a fresh unbounded result channel,
    /// and the receiver of that channel, on which the driver's answer arrives.
    pub fn into_termination(self) -> (parts: (
        ChannelTx<TerminateSubscription>,
        TerminateSubscription,
        ChannelRx<Outcome>,
    ))
        ensures
            parts.0 == self.terminate_tx(),
            parts.1.id == self.id(),
            parts.1.query == self.query(),
            parts.1.result_tx.offered() == Seq::<Outcome>::empty(),
            parts.1.result_tx.sent() == Seq::<Outcome>::empty(),
            parts.1.result_tx.capacity() is None,
            parts.2.received() == Seq::<Outcome>::empty(),
    {
        let (result_tx, result_rx) = unbounded();
        let Subscription { id, query, event_rx: _, terminate_tx } = self;
        (terminate_tx, TerminateSubscription { id, query, result_tx }, result_rx)
    }

    /// Asks the driver to terminate this subscription, without waiting: the
    /// request, which names this subscription and carries the sender of a
    /// fresh unbounded result channel, is handed once to the control channel.
    /// Where the channel takes it, the receiver of the result channel comes
    /// back: the driver's answer will arrive on it, and
    /// [`termination_result`] says what the termination returns for it.
    /// Where the channel does not take it, a transport error is returned.
    pub fn request_termination(self) -> (r: Result<ChannelRx<Outcome>, Error>)
        ensures
            exists|request: TerminateSubscription, after: ChannelTx<TerminateSubscription>|
                {
                    &&& request.id == self.id()
                    &&& request.query == self.query()
                    &&& request.result_tx.offered() == Seq::<Outcome>::empty()
                    &&& request.result_tx.capacity() is None
                    &&& #[trigger] self.terminate_tx().sent_as(request, r is Ok, after)
                },
            r is Ok ==> r->Ok_0.received() == Seq::<Outcome>::empty(),
            r is Err ==> r->Err_0@ == ErrorView::Transport(send_failure_text(SendFailure::Closed))
                || r->Err_0@ == ErrorView::Transport(send_failure_text(SendFailure::Full)),
            r is Err && self.terminate_tx().capacity() is None ==> r->Err_0@
                == ErrorView::Transport(send_failure_text(SendFailure::Closed)),
    {
        let (terminate_tx, request, result_rx) = self.into_termination();
        let mut terminate_tx = terminate_tx;
        let ghost handed = request;
        let sent = terminate_tx.send(request);
        let r = match sent {
            Ok(()) => Ok(result_rx),
            Err(failure) => Err(termination_send_error(failure)),
        };
        assert(self.terminate_tx().sent_as(handed, r is Ok, terminate_tx));
        r
    }
}

} // verus!
