//! The channels between the router and the consumers of events: ordered,
//! many senders to one receiver, unbounded or bounded. They are Tokio's; each
//! half also records, for proofs only, what it has enqueued or taken.

use vstd::prelude::*;
use vstd::string::*;
use tokio::sync::mpsc::{Receiver, Sender, UnboundedReceiver, UnboundedSender};
use tokio::sync::mpsc::error::{SendError, TryRecvError, TrySendError};
use crate::error::Error;

verus! {

/// `tokio::sync::mpsc::UnboundedSender`, opaque.
#[verifier::external_type_specification]
#[verifier::external_body]
#[verifier::reject_recursive_types(T)]
pub struct ExUnboundedSender<T>(UnboundedSender<T>);

/// `tokio::sync::mpsc::UnboundedReceiver`, opaque.
#[verifier::external_type_specification]
#[verifier::external_body]
#[verifier::reject_recursive_types(T)]
pub struct ExUnboundedReceiver<T>(UnboundedReceiver<T>);

/// `tokio::sync::mpsc::Sender`, opaque.
#[verifier::external_type_specification]
#[verifier::external_body]
#[verifier::reject_recursive_types(T)]
pub struct ExSender<T>(Sender<T>);

/// `tokio::sync::mpsc::Receiver`, opaque.
#[verifier::external_type_specification]
#[verifier::external_body]
#[verifier::reject_recursive_types(T)]
pub struct ExReceiver<T>(Receiver<T>);

/// `tokio::sync::mpsc::error::SendError`, opaque.
#[verifier::external_type_specification]
#[verifier::external_body]
#[verifier::reject_recursive_types(T)]
pub struct ExSendError<T>(SendError<T>);

/// `tokio::sync::mpsc::error::TrySendError`: `Full` or `Closed`, each with
/// the value that was not sent.
#[verifier::external_type_specification]
#[verifier::reject_recursive_types(T)]
pub struct ExTrySendError<T>(TrySendError<T>);

/// `tokio::sync::mpsc::error::TryRecvError`: `Empty` or `Closed`.
#[verifier::external_type_specification]
pub struct ExTryRecvError(TryRecvError);

/// `unbounded_channel` makes the two halves of a new channel. Nothing is
/// claimed of them.
pub assume_specification<T>[ tokio::sync::mpsc::unbounded_channel::<T> ]() -> (pair: (
    UnboundedSender<T>,
    UnboundedReceiver<T>,
));

/// `channel` makes the two halves of a new channel that holds at most
/// `buffer` values. It panics where `buffer` is zero, and where it is more
/// than the semaphore behind the channel can count, which is
/// `usize::MAX >> 2`: both are left out.
pub assume_specification<T>[ tokio::sync::mpsc::channel::<T> ](buffer: usize) -> (pair: (
    Sender<T>,
    Receiver<T>,
))
    requires
        0 < buffer <= usize::MAX / 4,
;

/// `UnboundedSender::send` enqueues the value or hands it back in an error
/// when the receiver is closed or gone. Which of the two depends on the
/// receiver, so nothing is claimed of the result.
pub assume_specification<T>[ UnboundedSender::<T>::send ](
    tx: &UnboundedSender<T>,
    message: T,
) -> (r: Result<(), SendError<T>>);

/// `Sender::try_send` enqueues the value without waiting, or hands it back in
/// an error when the channel is full or the receiver is closed or gone. Which
/// of these depends on the receiver, so nothing is claimed of the result.
pub assume_specification<T>[ Sender::<T>::try_send ](tx: &mut Sender<T>, message: T) -> (r: Result<
    (),
    TrySendError<T>,
>);

/// `UnboundedReceiver::try_recv` takes the oldest value that is waiting, if
/// any, without waiting for one. What it finds depends on the senders, so
/// nothing is claimed of the result.
pub assume_specification<T>[ UnboundedReceiver::<T>::try_recv ](rx: &mut UnboundedReceiver<T>) -> (r:
    Result<T, TryRecvError>);

/// `Receiver::try_recv` takes the oldest value that is waiting, if any,
/// without waiting for one. What it finds depends on the senders, so nothing
/// is claimed of the result.
pub assume_specification<T>[ Receiver::<T>::try_recv ](rx: &mut Receiver<T>) -> (r: Result<
    T,
    TryRecvError,
>);

/// `UnboundedSender::clone` makes one more sender for the same channel.
/// Nothing is claimed of it.
pub assume_specification<T>[ <UnboundedSender<T> as Clone>::clone ](
    tx: &UnboundedSender<T>,
) -> (other: UnboundedSender<T>);

/// `Sender::clone` makes one more sender for the same channel. Nothing is
/// claimed of it.
pub assume_specification<T>[ <Sender<T> as Clone>::clone ](tx: &Sender<T>) -> (other: Sender<T>);

/// Why a value was not enqueued.
#[derive(Debug, Clone, Copy, PartialEq, Eq, Structural)]
pub enum SendFailure {
    /// The receiving half is closed or gone.
    Closed,
    /// The channel is bounded and holds as many values as it may.
    Full,
}

/// The message of the error that stands for a failed send.
pub open spec fn send_failure_text(failure: SendFailure) -> Seq<char> {
    match failure {
        SendFailure::Closed => "failed to send message to internal channel: channel closed"@,
        SendFailure::Full => "failed to send message to internal channel: no available capacity"@,
    }
}

impl SendFailure {
    /// The internal error that reports this failure.
    pub fn to_error(self) -> (e: Error)
        ensures
            e@ == crate::error::ErrorView::Internal(send_failure_text(self)),
    {
        match self {
            SendFailure::Closed => Error::Internal(
                String::from_str("failed to send message to internal channel: channel closed"),
            ),
            SendFailure::Full => Error::Internal(
                String::from_str(
                    "failed to send message to internal channel: no available capacity",
                ),
            ),
        }
    }
}

/// What a receiver has in store at the moment it is asked.
#[derive(Debug, PartialEq, Eq)]
pub enum Polled<T> {
    /// The oldest value that was waiting.
    Ready(T),
    /// Nothing waits, but a sender is still there.
    Pending,
    /// Nothing waits and no sender is left: the end of the stream.
    Closed,
}

/// Tokio's sender behind a [`ChannelTx`], a bounded one with the capacity of
/// its channel, for one who awaits room in the channel.
#[derive(Debug)]
#[verifier::reject_recursive_types(T)]
pub enum SenderHalf<T> {
    Bounded(Sender<T>, usize),
    Unbounded(UnboundedSender<T>),
}

/// The sending half of a channel: Tokio's sender, and for proofs the record
/// of what was handed to it and of what it took.
#[verifier::reject_recursive_types(T)]
pub struct ChannelTx<T> {
    half: SenderHalf<T>,
    offered: Ghost<Seq<T>>,
    sent: Ghost<Seq<T>>,
}

/// The receiving half of a channel: Tokio's receiver, and for proofs the
/// record of what was taken from it.
#[verifier::reject_recursive_types(T)]
pub struct ChannelRx<T> {
    half: ReceiverHalf<T>,
    received: Ghost<Seq<T>>,
}

impl<T> ChannelTx<T> {
    /// The values that were handed to `send` on this sender, oldest first,
    /// whether they were enqueued or not.
    pub closed spec fn offered(&self) -> Seq<T> {
        self.offered@
    }

    /// The values that this sender has enqueued, oldest first.
    pub closed spec fn sent(&self) -> Seq<T> {
        self.sent@
    }

    /// Tokio's sender behind this one.
    pub closed spec fn half(&self) -> SenderHalf<T> {
        self.half
    }

    /// `after` is this sender once `value` was handed to `send`, which
    /// enqueued it (`taken`) or did not.
    pub open spec fn sent_as(self, value: T, taken: bool, after: ChannelTx<T>) -> bool {
        &&& after.capacity() == self.capacity()
        &&& after.offered() == self.offered().push(value)
        &&& after.sent() == if taken {
            self.sent().push(value)
        } else {
            self.sent()
        }
    }

    /// `after` is this sender once `value` was handed to `send`, whatever
    /// came of it.
    pub open spec fn tried(self, value: T, after: ChannelTx<T>) -> bool {
        self.sent_as(value, true, after) || self.sent_as(value, false, after)
    }

    /// How many values the channel holds at most, if it is bounded.
    pub closed spec fn capacity(&self) -> Option<usize> {
        match self.half {
            SenderHalf::Bounded(_, capacity) => Some(capacity),
            SenderHalf::Unbounded(_) => None,
        }
    }

    /// Enqueues `value` without waiting. It fails, and enqueues nothing, when
    /// the receiver is closed or gone, or when the channel is bounded and
    /// full.
    pub fn send(&mut self, value: T) -> (r: Result<(), SendFailure>)
        ensures
            old(self).sent_as(value, r is Ok, *final(self)),
            r == Err::<(), SendFailure>(SendFailure::Full) ==> old(self).capacity() is Some,
    {
        let ghost enqueued = value;
        proof {
            self.offered@ = self.offered@.push(enqueued);
        }
        let r = match &mut self.half {
            SenderHalf::Bounded(tx, _) => match tx.try_send(value) {
                Ok(()) => Ok(()),
                Err(TrySendError::Full(_)) => Err(SendFailure::Full),
                Err(TrySendError::Closed(_)) => Err(SendFailure::Closed),
            },
            SenderHalf::Unbounded(tx) => match tx.send(value) {
                Ok(()) => Ok(()),
                Err(_) => Err(SendFailure::Closed),
            },
        };
        if r.is_ok() {
            proof {
                self.sent@ = self.sent@.push(enqueued);
            }
        }
        r
    }
}

impl<T> ChannelTx<T> {
    /// Tokio's sender behind this one, for one who awaits room in the
    /// channel. What is sent on it directly is not on record in `offered`
    /// and `sent`.
    pub fn sender_mut(&mut self) -> (half: &mut SenderHalf<T>)
        ensures
            *half == old(self).half(),
            final(self).half() == *final(half),
            final(self).offered() == old(self).offered(),
            final(self).sent() == old(self).sent(),
    {
        &mut self.half
    }
}

impl<T> Clone for ChannelTx<T> {
    /// One more sender for the same channel, which has enqueued nothing yet.
    fn clone(&self) -> (other: ChannelTx<T>)
        ensures
            other.capacity() == self.capacity(),
            other.offered() == Seq::<T>::empty(),
            other.sent() == Seq::<T>::empty(),
    {
        let half = match &self.half {
            SenderHalf::Bounded(tx, capacity) => SenderHalf::Bounded(tx.clone(), *capacity),
            SenderHalf::Unbounded(tx) => SenderHalf::Unbounded(tx.clone()),
        };
        ChannelTx { half, offered: Ghost(Seq::empty()), sent: Ghost(Seq::empty()) }
    }
}

impl<T> ChannelRx<T> {
    /// Takes the oldest value that waits in the channel, without waiting for
    /// one. What it takes is the next on record in `received`.
    pub fn try_recv(&mut self) -> (r: Polled<T>)
        ensures
            final(self).received() == old(self).received() + r.taken(),
    {
        let taken = match &mut self.half {
            ReceiverHalf::Bounded(rx) => rx.try_recv(),
            ReceiverHalf::Unbounded(rx) => rx.try_recv(),
        };
        match taken {
            Ok(value) => {
                proof {
                    self.received@ = self.received@.push(value);
                }
                Polled::Ready(value)
            },
            Err(TryRecvError::Empty) => Polled::Pending,
            Err(TryRecvError::Closed) => Polled::Closed,
        }
    }

    /// The values that `try_recv` has taken out of the channel through this
    /// receiver, oldest first.
    pub closed spec fn received(&self) -> Seq<T> {
        self.received@
    }

    /// Tokio's receiver behind this one.
    pub closed spec fn half(&self) -> ReceiverHalf<T> {
        self.half
    }

    /// Tokio's receiver behind this one, for one who awaits the next value.
    /// What is taken from it directly is not on record in `received`.
    pub fn receiver_mut(&mut self) -> (half: &mut ReceiverHalf<T>)
        ensures
            *half == old(self).half(),
            final(self).half() == *final(half),
            final(self).received() == old(self).received(),
    {
        &mut self.half
    }
}

/// Tokio's receiver behind a [`ChannelRx`], for one who awaits the next
/// value.
#[derive(Debug)]
#[verifier::reject_recursive_types(T)]
pub enum ReceiverHalf<T> {
    Bounded(Receiver<T>),
    Unbounded(UnboundedReceiver<T>),
}

impl<T> Polled<T> {
    /// The values that were taken: the one that is ready, or none.
    pub open spec fn taken(self) -> Seq<T> {
        match self {
            Polled::Ready(value) => seq![value],
            Polled::Pending => Seq::empty(),
            Polled::Closed => Seq::empty(),
        }
    }
}

/// A new channel without a bound: a send fails only when the receiver is
/// gone.
pub fn unbounded<T>() -> (pair: (ChannelTx<T>, ChannelRx<T>))
    ensures
        pair.0.offered() == Seq::<T>::empty(),
        pair.0.sent() == Seq::<T>::empty(),
        pair.0.capacity() is None,
        pair.1.received() == Seq::<T>::empty(),
{
    let (tx, rx) = tokio::sync::mpsc::unbounded_channel();
    (
        ChannelTx {
            half: SenderHalf::Unbounded(tx),
            offered: Ghost(Seq::empty()),
            sent: Ghost(Seq::empty()),
        },
        ChannelRx { half: ReceiverHalf::Unbounded(rx), received: Ghost(Seq::empty()) },
    )
}

/// A new channel that holds at most `capacity` values.
pub fn bounded<T>(capacity: usize) -> (pair: (ChannelTx<T>, ChannelRx<T>))
    requires
        0 < capacity <= usize::MAX / 4,
    ensures
        pair.0.offered() == Seq::<T>::empty(),
        pair.0.sent() == Seq::<T>::empty(),
        pair.0.capacity() == Some(capacity),
        pair.1.received() == Seq::<T>::empty(),
{
    let (tx, rx) = tokio::sync::mpsc::channel(capacity);
    (
        ChannelTx {
            half: SenderHalf::Bounded(tx, capacity),
            offered: Ghost(Seq::empty()),
            sent: Ghost(Seq::empty()),
        },
        ChannelRx { half: ReceiverHalf::Bounded(rx), received: Ghost(Seq::empty()) },
    )
}

/// A new channel for a buffer of `buf_size`: unbounded for zero, bounded by
/// `buf_size` for any other size.
pub fn buffered<T>(buf_size: usize) -> (pair: (ChannelTx<T>, ChannelRx<T>))
    requires
        buf_size <= usize::MAX / 4,
    ensures
        pair.0.offered() == Seq::<T>::empty(),
        pair.0.sent() == Seq::<T>::empty(),
        pair.0.capacity() == if buf_size == 0 { None } else { Some(buf_size) },
        pair.1.received() == Seq::<T>::empty(),
{
    if buf_size == 0 {
        unbounded()
    } else {
        bounded(buf_size)
    }
}

} // verus!
