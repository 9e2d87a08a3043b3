//! The router's state as mathematics: which sink is registered for which
//! query under which id, and which requests are pending. The router's
//! contracts and the laws about it are stated over this model.

use vstd::prelude::*;
use crate::channels::ChannelTx;
use crate::error::Error;
use crate::event::Event;

verus! {

/// What travels on an event channel.
pub type Delivery = Result<Event, Error>;

/// What travels on a result channel.
pub type Outcome = Result<(), Error>;

/// The current state of a subscription.
#[derive(Debug, Clone, Copy, PartialEq, Eq, Structural)]
pub enum SubscriptionState {
    /// A subscribe request is pending.
    Pending,
    /// The subscription is registered and receives events.
    Active,
    /// An unsubscribe request is pending.
    Cancelling,
    /// Nothing is known under the id.
    NotFound,
}

/// A subscribe request that awaits its acknowledgement.
pub ghost struct PendingSubscribeView {
    /// The id of the subscription to be.
    pub id: Seq<char>,
    /// Its query.
    pub query: Seq<char>,
    /// The sink to register once the request is acknowledged.
    pub event_tx: ChannelTx<Delivery>,
    /// The channel on which the one who asked awaits the answer.
    pub result_tx: ChannelTx<Outcome>,
}

/// An unsubscribe request that awaits its acknowledgement.
pub ghost struct PendingUnsubscribeView {
    /// The id of the subscription to end.
    pub id: Seq<char>,
    /// Its query.
    pub query: Seq<char>,
    /// The channel on which the one who asked awaits the answer.
    pub result_tx: ChannelTx<Outcome>,
}

/// The sinks of one query by subscription id.
pub type Sinks = Map<Seq<char>, ChannelTx<Delivery>>;

/// `after` holds the sinks of `before`, each as it is once `Ok(ev)` was
/// handed to it, whether it took the event or not.
pub open spec fn offered_each(before: Sinks, ev: Event, after: Sinks) -> bool {
    &&& after.dom() == before.dom()
    &&& forall|id: Seq<char>|
        before.contains_key(id) ==> #[trigger] before[id].tried(Ok(ev), after[id])
}

/// The ids of the sinks of `before` that have enqueued nothing more in
/// `after`.
pub open spec fn refused(before: Sinks, after: Sinks) -> Set<Seq<char>> {
    Set::new(|id: Seq<char>| before.contains_key(id) && after[id].sent() == before[id].sent())
}

/// The state of a router.
pub ghost struct RouterState {
    /// For each query, the registered sinks by subscription id.
    pub active: Map<Seq<char>, Sinks>,
    /// The pending subscribe requests by request id.
    pub pending_subscribe: Map<Seq<char>, PendingSubscribeView>,
    /// The pending unsubscribe requests by request id.
    pub pending_unsubscribe: Map<Seq<char>, PendingUnsubscribeView>,
}

impl RouterState {
    /// The state of a new router.
    pub open spec fn empty() -> RouterState {
        RouterState {
            active: Map::empty(),
            pending_subscribe: Map::empty(),
            pending_unsubscribe: Map::empty(),
        }
    }

    /// The sinks registered for `query`: none where the query is unknown.
    pub open spec fn sinks(self, query: Seq<char>) -> Sinks {
        if self.active.contains_key(query) {
            self.active[query]
        } else {
            Map::empty()
        }
    }

    /// A sink is registered under `id`, for whatever query.
    pub open spec fn is_active(self, id: Seq<char>) -> bool {
        exists|query: Seq<char>| #[trigger]
            self.active.contains_key(query) && self.active[query].contains_key(id)
    }

    /// The state of the subscription `req_id`: pending before cancelling,
    /// cancelling before active.
    pub open spec fn state_of(self, req_id: Seq<char>) -> SubscriptionState {
        if self.pending_subscribe.contains_key(req_id) {
            SubscriptionState::Pending
        } else if self.pending_unsubscribe.contains_key(req_id) {
            SubscriptionState::Cancelling
        } else if self.is_active(req_id) {
            SubscriptionState::Active
        } else {
            SubscriptionState::NotFound
        }
    }

    /// No subscription id is registered for two queries.
    pub open spec fn ids_unique(self) -> bool {
        forall|q1: Seq<char>, q2: Seq<char>, id: Seq<char>|
            #![trigger self.active[q1].contains_key(id), self.active[q2].contains_key(id)]
            self.active.contains_key(q1) && self.active[q1].contains_key(id)
                && self.active.contains_key(q2) && self.active[q2].contains_key(id) ==> q1 == q2
    }

    /// No request id is pending both as a subscribe and as an unsubscribe
    /// request.
    pub open spec fn pending_disjoint(self) -> bool {
        forall|req_id: Seq<char>|
            !(#[trigger] self.pending_subscribe.contains_key(req_id)
                && self.pending_unsubscribe.contains_key(req_id))
    }

    /// The state with `sink` registered under `id` for `query`, in place of
    /// one that was there under the same id and query.
    pub open spec fn added(self, id: Seq<char>, query: Seq<char>, sink: ChannelTx<Delivery>) -> RouterState {
        RouterState { active: self.active.insert(query, self.sinks(query).insert(id, sink)), ..self }
    }

    /// The state without the sink of `id` for `query`.
    pub open spec fn removed(self, id: Seq<char>, query: Seq<char>) -> RouterState {
        if self.active.contains_key(query) {
            RouterState { active: self.active.insert(query, self.active[query].remove(id)), ..self }
        } else {
            self
        }
    }

    /// The state with `pending` on record under `req_id`, in place of an
    /// earlier subscribe request under that id.
    pub open spec fn pending_added(self, req_id: Seq<char>, pending: PendingSubscribeView) -> RouterState {
        RouterState { pending_subscribe: self.pending_subscribe.insert(req_id, pending), ..self }
    }

    /// The state with `pending` on record under `req_id`, in place of an
    /// earlier unsubscribe request under that id.
    pub open spec fn pending_removed(
        self,
        req_id: Seq<char>,
        pending: PendingUnsubscribeView,
    ) -> RouterState {
        RouterState { pending_unsubscribe: self.pending_unsubscribe.insert(req_id, pending), ..self }
    }

    /// The state after the subscribe request `req_id` was acknowledged: the
    /// request is no longer pending and its sink is registered. Without such
    /// a request nothing changes.
    pub open spec fn add_confirmed(self, req_id: Seq<char>) -> RouterState {
        if self.pending_subscribe.contains_key(req_id) {
            let pending = self.pending_subscribe[req_id];
            RouterState {
                pending_subscribe: self.pending_subscribe.remove(req_id),
                ..self
            }.added(pending.id, pending.query, pending.event_tx)
        } else {
            self
        }
    }

    /// The state after the subscribe request `req_id` was refused: the
    /// request is no longer pending and its sink is dropped. Without such a
    /// request nothing changes.
    pub open spec fn add_cancelled(self, req_id: Seq<char>) -> RouterState {
        RouterState { pending_subscribe: self.pending_subscribe.remove(req_id), ..self }
    }

    /// The state after the unsubscribe request `req_id` was acknowledged:
    /// the request is no longer pending and the sink it names is removed.
    /// Without such a request nothing changes.
    pub open spec fn remove_confirmed(self, req_id: Seq<char>) -> RouterState {
        if self.pending_unsubscribe.contains_key(req_id) {
            let pending = self.pending_unsubscribe[req_id];
            RouterState {
                pending_unsubscribe: self.pending_unsubscribe.remove(req_id),
                ..self
            }.removed(pending.id, pending.query)
        } else {
            self
        }
    }

    /// The state after the unsubscribe request `req_id` was refused: the
    /// request is no longer pending and the subscription stays as it is.
    /// Without such a request nothing changes.
    pub open spec fn remove_cancelled(self, req_id: Seq<char>) -> RouterState {
        RouterState { pending_unsubscribe: self.pending_unsubscribe.remove(req_id), ..self }
    }

    /// The state after each sink of `query` became what `after` holds for
    /// it. Without sinks for the query nothing changes.
    pub open spec fn delivered(self, query: Seq<char>, after: Sinks) -> RouterState {
        if self.active.contains_key(query) {
            RouterState { active: self.active.insert(query, after), ..self }
        } else {
            self
        }
    }

    /// The state without the sinks of `ids` for `query`.
    pub open spec fn evicted(self, query: Seq<char>, ids: Set<Seq<char>>) -> RouterState {
        if self.active.contains_key(query) {
            RouterState { active: self.active.insert(query, self.active[query].remove_keys(ids)), ..self }
        } else {
            self
        }
    }

    /// The state after an event was published for `query`, where `after`
    /// holds each sink of the query as the offer left it: the sinks that
    /// took the event stay, as `after` has them, and the others are gone.
    pub open spec fn published(self, query: Seq<char>, after: Sinks) -> RouterState {
        self.delivered(query, after).evicted(query, refused(self.sinks(query), after))
    }
}

/// One operation of a router, with what the outside decided of it: how an
/// offered event left the sinks.
pub ghost enum Operation {
    Add { id: Seq<char>, query: Seq<char>, sink: ChannelTx<Delivery> },
    Remove { id: Seq<char>, query: Seq<char> },
    PendingAdd { req_id: Seq<char>, subscribe: PendingSubscribeView },
    ConfirmAdd { req_id: Seq<char> },
    CancelAdd { req_id: Seq<char> },
    PendingRemove { req_id: Seq<char>, unsubscribe: PendingUnsubscribeView },
    ConfirmRemove { req_id: Seq<char> },
    CancelRemove { req_id: Seq<char> },
    Publish { ev: Event, after: Sinks },
    Evict { query: Seq<char>, ids: Set<Seq<char>> },
}

impl RouterState {
    /// The state after one operation.
    pub open spec fn step(self, op: Operation) -> RouterState {
        match op {
            Operation::Add { id, query, sink } => self.added(id, query, sink),
            Operation::Remove { id, query } => self.removed(id, query),
            Operation::PendingAdd { req_id, subscribe } => self.pending_added(req_id, subscribe),
            Operation::ConfirmAdd { req_id } => self.add_confirmed(req_id),
            Operation::CancelAdd { req_id } => self.add_cancelled(req_id),
            Operation::PendingRemove { req_id, unsubscribe } => self.pending_removed(
                req_id,
                unsubscribe,
            ),
            Operation::ConfirmRemove { req_id } => self.remove_confirmed(req_id),
            Operation::CancelRemove { req_id } => self.remove_cancelled(req_id),
            Operation::Publish { ev, after } => if offered_each(self.sinks(ev.query@), ev, after) {
                self.published(ev.query@, after)
            } else {
                self
            },
            Operation::Evict { query, ids } => self.evicted(query, ids),
        }
    }

    /// The state after a sequence of operations, the first of them first.
    pub open spec fn run(self, ops: Seq<Operation>) -> RouterState
        decreases ops.len(),
    {
        if ops.len() == 0 {
            self
        } else {
            self.run(ops.drop_last()).step(ops.last())
        }
    }

    /// The sink that `op` registers in this state, as subscription id and
    /// query, if it registers one.
    pub open spec fn registered_by(self, op: Operation) -> Option<(Seq<char>, Seq<char>)> {
        match op {
            Operation::Add { id, query, sink } => Some((id, query)),
            Operation::ConfirmAdd { req_id } => if self.pending_subscribe.contains_key(req_id) {
                Some((self.pending_subscribe[req_id].id, self.pending_subscribe[req_id].query))
            } else {
                None
            },
            _ => None,
        }
    }

    /// A sink is registered under `id` for another query than `query`.
    pub open spec fn registered_elsewhere(self, id: Seq<char>, query: Seq<char>) -> bool {
        exists|other: Seq<char>|
            other != query && self.active.contains_key(other) && #[trigger] self.active[other].contains_key(
                id,
            )
    }

    /// `op` registers no subscription id that is registered for another
    /// query already.
    pub open spec fn keeps_ids_apart(self, op: Operation) -> bool {
        match self.registered_by(op) {
            Some(sink) => !self.registered_elsewhere(sink.0, sink.1),
            None => true,
        }
    }

    /// `op` puts no request id on record that is pending in the other table
    /// already.
    pub open spec fn keeps_requests_apart(self, op: Operation) -> bool {
        match op {
            Operation::PendingAdd { req_id, subscribe } => !self.pending_unsubscribe.contains_key(
                req_id,
            ),
            Operation::PendingRemove { req_id, unsubscribe } => !self.pending_subscribe.contains_key(
                req_id,
            ),
            _ => true,
        }
    }
}

} // verus!
