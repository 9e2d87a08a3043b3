//! The subscription routing core of a JSON-RPC client for a node's event
//! stream: subscription ids, the router that fans events out to the sinks of
//! their query, and the handle that a caller holds on a subscription.

mod assoc;
pub mod channels;
pub mod error;
pub mod event;
pub mod id;
pub mod laws;
pub mod model;
pub mod router;
pub mod rpc;
pub mod subscription;
pub mod text;

pub use channels::{
    bounded, buffered, unbounded, ChannelRx, ChannelTx, Polled, ReceiverHalf, SendFailure,
    SenderHalf,
};
pub use error::Error;
pub use event::Event;
pub use id::SubscriptionId;
pub use model::SubscriptionState;
pub use router::{PendingReply, SubscriptionRouter};
pub use rpc::Id;
pub use subscription::{Subscription, TerminateSubscription};
