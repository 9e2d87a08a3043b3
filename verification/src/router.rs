//! The subscription router: which sinks listen to which query, which
//! subscribe and unsubscribe requests await their acknowledgement, and the
//! fan-out of events to the sinks of their query.

use vstd::prelude::*;
use vstd::string::*;
use crate::assoc::StringMap;
use crate::channels::{send_failure_text, ChannelTx, SendFailure};
use crate::error::{Error, ErrorView};
use crate::event::Event;
use crate::id::{lemma_texts_push, texts, SubscriptionId};
use crate::model::{
    offered_each, refused, Delivery, Outcome, PendingSubscribeView, PendingUnsubscribeView,
    RouterState, Sinks, SubscriptionState,
};

verus! {

/// A subscribe request that awaits its acknowledgement, with what its
/// confirmation will need.
struct PendingSubscribe {
    id: SubscriptionId,
    query: String,
    event_tx: ChannelTx<Delivery>,
    result_tx: ChannelTx<Outcome>,
}

/// An unsubscribe request that awaits its acknowledgement.
struct PendingUnsubscribe {
    id: SubscriptionId,
    query: String,
    result_tx: ChannelTx<Outcome>,
}

impl View for PendingSubscribe {
    type V = PendingSubscribeView;

    closed spec fn view(&self) -> PendingSubscribeView {
        PendingSubscribeView {
            id: self.id@,
            query: self.query@,
            event_tx: self.event_tx,
            result_tx: self.result_tx,
        }
    }
}

impl View for PendingUnsubscribe {
    type V = PendingUnsubscribeView;

    closed spec fn view(&self) -> PendingUnsubscribeView {
        PendingUnsubscribeView { id: self.id@, query: self.query@, result_tx: self.result_tx }
    }
}

/// A pending request that was acknowledged or refused and is to be answered:
/// the subscription it was about, and the channel on which the one who asked
/// awaits the answer.
pub struct PendingReply {
    pub id: SubscriptionId,
    pub result_tx: ChannelTx<Outcome>,
}

/// Offers `Ok(ev)` to each of `sinks`, and gives the ids of those that did
/// not take it.
fn deliver_to(sinks: &mut StringMap<ChannelTx<Delivery>>, ev: &Event) -> (failed: Vec<
    SubscriptionId,
>)
    requires
        old(sinks).wf(),
    ensures
        final(sinks).wf(),
        offered_each(old(sinks)@, *ev, final(sinks)@),
        texts(failed@) == refused(old(sinks)@, final(sinks)@),
{
    let mut failed: Vec<SubscriptionId> = Vec::new();
    let n = sinks.len();
    let mut i: usize = 0;
    while i < n
        invariant
            sinks.wf(),
            sinks.keys() == old(sinks).keys(),
            n == sinks.keys().len(),
            n == sinks.values().len(),
            n == old(sinks).values().len(),
            i <= n,
            forall|j: int|
                0 <= j < i ==> (#[trigger] old(sinks).values()[j]).tried(Ok(*ev), sinks.values()[j]),
            forall|j: int| i <= j < n ==> #[trigger] sinks.values()[j] == old(sinks).values()[j],
            forall|text: Seq<char>|
                texts(failed@).contains(text) <==> exists|j: int|
                    0 <= j < i && #[trigger] sinks.keys()[j] == text && sinks.values()[j].sent()
                        == old(sinks).values()[j].sent(),
        decreases n - i,
    {
        let ghost before = *sinks;
        let ghost failed_before = failed@;
        let sent = sinks.value_at_mut(i).send(Ok(ev.clone()));
        if sent.is_err() {
            failed.push(SubscriptionId::from_string(sinks.key_at(i).as_str()));
            proof {
                lemma_texts_push(failed_before, failed@[failed_before.len() as int]);
                assert(failed@ =~= failed_before.push(failed@[failed_before.len() as int]));
            }
        }
        proof {
            assert forall|j: int| 0 <= j < i + 1 implies (#[trigger] old(sinks).values()[j]).tried(
                Ok(*ev),
                sinks.values()[j],
            ) by {
                if j < i {
                    assert(sinks.values()[j] == before.values()[j]);
                }
            }
            assert forall|text: Seq<char>| texts(failed@).contains(text) <==> exists|j: int|
                0 <= j < i + 1 && #[trigger] sinks.keys()[j] == text && sinks.values()[j].sent()
                    == old(sinks).values()[j].sent() by {
                if texts(failed@).contains(text) {
                    if texts(failed_before).contains(text) {
                        let j = choose|j: int|
                            0 <= j < i && #[trigger] before.keys()[j] == text
                                && before.values()[j].sent() == old(sinks).values()[j].sent();
                        assert(sinks.keys()[j] == text && sinks.values()[j] == before.values()[j]);
                    } else {
                        assert(sinks.keys()[i as int] == text);
                    }
                }
                if exists|j: int|
                    0 <= j < i + 1 && #[trigger] sinks.keys()[j] == text && sinks.values()[j].sent()
                        == old(sinks).values()[j].sent() {
                    let j = choose|j: int|
                        0 <= j < i + 1 && #[trigger] sinks.keys()[j] == text
                            && sinks.values()[j].sent() == old(sinks).values()[j].sent();
                    if j < i {
                        assert(before.keys()[j] == text && sinks.values()[j] == before.values()[j]);
                    } else {
                        assert(before.values()[j].sent().push(Ok(*ev)).len()
                            == before.values()[j].sent().len() + 1);
                        assert(sent is Err);
                    }
                }
            }
        }
        i = i + 1;
    }
    proof {
        sinks.lemma_entries();
        old(sinks).lemma_entries();
        assert forall|id: Seq<char>| sinks@.contains_key(id) <==> old(sinks)@.contains_key(id) by {
            if sinks@.contains_key(id) {
                let j = sinks.keys().index_of(id);
                assert(old(sinks).keys()[j] == id);
            }
            if old(sinks)@.contains_key(id) {
                let j = old(sinks).keys().index_of(id);
                assert(sinks.keys()[j] == id);
            }
        }
        assert(sinks@.dom() =~= old(sinks)@.dom());
        assert forall|id: Seq<char>| old(sinks)@.contains_key(id) implies #[trigger] old(
            sinks,
        )@[id].tried(Ok(*ev), sinks@[id]) by {
            let j = old(sinks).keys().index_of(id);
            assert(sinks@[id] == sinks.values()[j]);
            assert(old(sinks)@[id] == old(sinks).values()[j]);
        }
        assert forall|text: Seq<char>| texts(failed@).contains(text) <==> refused(
            old(sinks)@,
            sinks@,
        ).contains(text) by {
            if texts(failed@).contains(text) {
                let j = choose|j: int|
                    0 <= j < i && #[trigger] sinks.keys()[j] == text && sinks.values()[j].sent()
                        == old(sinks).values()[j].sent();
                assert(old(sinks).keys()[j] == text);
                assert(sinks@[text] == sinks.values()[j]);
                assert(old(sinks)@[text] == old(sinks).values()[j]);
            }
            if refused(old(sinks)@, sinks@).contains(text) {
                let j = old(sinks).keys().index_of(text);
                assert(sinks.keys()[j] == text);
                assert(sinks@[text] == sinks.values()[j]);
                assert(old(sinks)@[text] == old(sinks).values()[j]);
            }
        }
        assert(texts(failed@) =~= refused(old(sinks)@, sinks@));
    }
    failed
}

/// Removes the sinks of `ids` from `sinks`.
fn evict_from(sinks: &mut StringMap<ChannelTx<Delivery>>, ids: &Vec<SubscriptionId>)
    requires
        old(sinks).wf(),
    ensures
        final(sinks).wf(),
        final(sinks)@ == old(sinks)@.remove_keys(texts(ids@)),
{
    let mut k: usize = 0;
    assert(sinks@ =~= old(sinks)@.remove_keys(texts(ids@.subrange(0, 0))));
    while k < ids.len()
        invariant
            sinks.wf(),
            k <= ids.len(),
            sinks@ == old(sinks)@.remove_keys(texts(ids@.subrange(0, k as int))),
        decreases ids.len() - k,
    {
        sinks.remove(&ids[k].to_string());
        proof {
            let seen = ids@.subrange(0, k as int);
            assert(ids@.subrange(0, k + 1) =~= seen.push(ids@[k as int]));
            lemma_texts_push(seen, ids@[k as int]);
            assert(sinks@ =~= old(sinks)@.remove_keys(texts(ids@.subrange(0, k + 1))));
        }
        k = k + 1;
    }
    assert(ids@.subrange(0, k as int) =~= ids@);
}

/// The message of the error that reports that the refusal of a pending
/// subscription could not be passed on to the one who asked for it.
pub open spec fn cancel_failure_text(id: Seq<char>) -> Seq<char> {
    "failed to communicate result of pending subscription with ID: "@ + id
}

/// What the router returns once it has tried to enqueue an answer on a
/// result channel: success where the answer was enqueued, else the internal
/// error that reports why it was not.
pub fn reply_result(sent: Result<(), SendFailure>) -> (r: Result<(), Error>)
    ensures
        match sent {
            Ok(_) => r is Ok,
            Err(failure) => r is Err && r->Err_0@ == ErrorView::Internal(send_failure_text(failure)),
        },
{
    match sent {
        Ok(()) => Ok(()),
        Err(failure) => Err(failure.to_error()),
    }
}

/// What the router returns once it has tried to enqueue the refusal of the
/// pending subscription `id` on its result channel: success where the refusal
/// was enqueued, else an internal error that names the subscription.
pub fn cancel_reply_result(id: &SubscriptionId, sent: Result<(), SendFailure>) -> (r: Result<
    (),
    Error,
>)
    ensures
        match sent {
            Ok(_) => r is Ok,
            Err(_) => r is Err && r->Err_0@ == ErrorView::Internal(cancel_failure_text(id@)),
        },
{
    match sent {
        Ok(()) => Ok(()),
        Err(_) => {
            let mut message = String::from_str(
                "failed to communicate result of pending subscription with ID: ",
            );
            message.append(id.as_str());
            Err(Error::Internal(message))
        },
    }
}

/// The registered sinks by query and by subscription id.
spec fn sinks_of(subscriptions: Map<Seq<char>, StringMap<ChannelTx<Delivery>>>) -> Map<
    Seq<char>,
    Sinks,
> {
    subscriptions.map_values(|sinks: StringMap<ChannelTx<Delivery>>| sinks@)
}

/// Provides a mechanism for tracking subscriptions and routing events to
/// them.
pub struct SubscriptionRouter {
    // The sinks of the active subscriptions by query, then by subscription id.
    subscriptions: StringMap<StringMap<ChannelTx<Delivery>>>,
    // The pending subscribe requests by the id of the JSON-RPC request.
    pending_subscribe: StringMap<PendingSubscribe>,
    // The pending unsubscribe requests by the id of the JSON-RPC request.
    pending_unsubscribe: StringMap<PendingUnsubscribe>,
}

impl View for SubscriptionRouter {
    type V = RouterState;

    closed spec fn view(&self) -> RouterState {
        RouterState {
            active: sinks_of(self.subscriptions@),
            pending_subscribe: self.pending_subscribe@.map_values(|p: PendingSubscribe| p@),
            pending_unsubscribe: self.pending_unsubscribe@.map_values(|p: PendingUnsubscribe| p@),
        }
    }
}

impl Default for SubscriptionRouter {
    /// A router without subscriptions and without pending requests.
    fn default() -> (router: SubscriptionRouter)
        ensures
            router.wf(),
            router@ == RouterState::empty(),
    {
        SubscriptionRouter::new()
    }
}

impl SubscriptionRouter {
    /// In each table no key occurs twice.
    pub closed spec fn wf(&self) -> bool {
        &&& self.subscriptions.wf()
        &&& forall|query: Seq<char>|
            self.subscriptions@.contains_key(query) ==> (#[trigger] self.subscriptions@[query]).wf()
        &&& self.pending_subscribe.wf()
        &&& self.pending_unsubscribe.wf()
    }

    /// A router without subscriptions and without pending requests.
    pub fn new() -> (router: SubscriptionRouter)
        ensures
            router.wf(),
            router@ == RouterState::empty(),
    {
        let router = SubscriptionRouter {
            subscriptions: StringMap::new(),
            pending_subscribe: StringMap::new(),
            pending_unsubscribe: StringMap::new(),
        };
        assert(router@.active =~= Map::empty());
        assert(router@.pending_subscribe =~= Map::empty());
        assert(router@.pending_unsubscribe =~= Map::empty());
        router
    }

    /// Immediately add a new subscription to the router without waiting for
    /// confirmation: `event_tx` is the sink registered under `id` for
    /// `query`. A sink already registered under the same id and query is
    /// replaced.
    pub fn add(&mut self, id: &SubscriptionId, query: String, event_tx: ChannelTx<Delivery>)
        requires
            old(self).wf(),
        ensures
            final(self).wf(),
            final(self)@ == old(self)@.added(id@, query@, event_tx),
    {
        match self.subscriptions.get_mut(&query) {
            Some(sinks) => {
                sinks.insert(id.to_string(), event_tx);
            },
            None => {
                let mut sinks = StringMap::new();
                sinks.insert(id.to_string(), event_tx);
                self.subscriptions.insert(query, sinks);
            },
        }
        assert(self@.active =~= old(self)@.added(id@, query@, event_tx).active);
    }

    /// Immediately remove the subscription with the given query and id, if
    /// there is one.
    pub fn remove(&mut self, id: &SubscriptionId, query: String)
        requires
            old(self).wf(),
        ensures
            final(self).wf(),
            final(self)@ == old(self)@.removed(id@, query@),
    {
        match self.subscriptions.get_mut(&query) {
            Some(sinks) => {
                sinks.remove(&id.to_string());
            },
            None => {},
        }
        assert(self@.active =~= old(self)@.removed(id@, query@).active);
    }

    /// Keep track of a pending subscription, which can either be confirmed
    /// or cancelled. `req_id` is the id of the subscribe request, `subs_id`
    /// that of the subscription to be. A request already pending under
    /// `req_id` is replaced.
    pub fn pending_add(
        &mut self,
        req_id: &str,
        subs_id: &SubscriptionId,
        query: String,
        event_tx: ChannelTx<Delivery>,
        result_tx: ChannelTx<Outcome>,
    )
        requires
            old(self).wf(),
        ensures
            final(self).wf(),
            final(self)@ == old(self)@.pending_added(
                req_id@,
                PendingSubscribeView { id: subs_id@, query: query@, event_tx, result_tx },
            ),
    {
        let pending = PendingSubscribe { id: subs_id.clone(), query, event_tx, result_tx };
        self.pending_subscribe.insert(String::from_str(req_id), pending);
        assert(self@.pending_subscribe =~= old(self)@.pending_subscribe.insert(req_id@, pending@));
    }

    /// Keeps track of a pending unsubscribe request, which can either be
    /// confirmed or cancelled. A request already pending under `req_id` is
    /// replaced.
    pub fn pending_remove(
        &mut self,
        req_id: &str,
        subs_id: &SubscriptionId,
        query: String,
        result_tx: ChannelTx<Outcome>,
    )
        requires
            old(self).wf(),
        ensures
            final(self).wf(),
            final(self)@ == old(self)@.pending_removed(
                req_id@,
                PendingUnsubscribeView { id: subs_id@, query: query@, result_tx },
            ),
    {
        let pending = PendingUnsubscribe { id: subs_id.clone(), query, result_tx };
        self.pending_unsubscribe.insert(String::from_str(req_id), pending);
        assert(self@.pending_unsubscribe =~= old(self)@.pending_unsubscribe.insert(
            req_id@,
            pending@,
        ));
    }

    /// Helper to check whether the subscription with the given id is
    /// currently active.
    pub fn is_active(&self, id: &SubscriptionId) -> (active: bool)
        requires
            self.wf(),
        ensures
            active == self@.is_active(id@),
    {
        let key = id.to_string();
        proof {
            self.subscriptions.lemma_entries();
        }
        let mut i: usize = 0;
        while i < self.subscriptions.len()
            invariant
                self.wf(),
                key@ == id@,
                i <= self.subscriptions.keys().len(),
                forall|j: int|
                    0 <= j < i ==> !(#[trigger] self.subscriptions.values()[j])@.contains_key(id@),
            decreases self.subscriptions.keys().len() - i,
        {
            proof {
                self.subscriptions.lemma_entries();
            }
            if self.subscriptions.value_at(i).contains_key(&key) {
                let ghost query = self.subscriptions.keys()[i as int];
                assert(self@.active.contains_key(query) && self@.active[query].contains_key(id@));
                return true;
            }
            i = i + 1;
        }
        proof {
            self.subscriptions.lemma_entries();
            assert forall|query: Seq<char>| #[trigger]
                self@.active.contains_key(query) implies !self@.active[query].contains_key(id@) by {
                let j = self.subscriptions.keys().index_of(query);
                assert(self.subscriptions.values()[j] == self.subscriptions@[query]);
            }
        }
        false
    }

    /// Utility method to determine the current state of the subscription
    /// with the given id: pending before cancelling, cancelling before
    /// active.
    pub fn subscription_state(&self, req_id: &str) -> (state: SubscriptionState)
        requires
            self.wf(),
        ensures
            state == self@.state_of(req_id@),
    {
        let key = String::from_str(req_id);
        if self.pending_subscribe.contains_key(&key) {
            return SubscriptionState::Pending;
        }
        if self.pending_unsubscribe.contains_key(&key) {
            return SubscriptionState::Cancelling;
        }
        if self.is_active(&SubscriptionId::from_string(req_id)) {
            return SubscriptionState::Active;
        }
        SubscriptionState::NotFound
    }

    /// Offers `Ok(ev)` to every sink of the query of `ev` and gives the ids
    /// of those that did not take it. No sink is removed.
    fn deliver(&mut self, ev: &Event) -> (failed: Vec<SubscriptionId>)
        requires
            old(self).wf(),
        ensures
            final(self).wf(),
            offered_each(old(self)@.sinks(ev.query@), *ev, final(self)@.sinks(ev.query@)),
            texts(failed@) == refused(old(self)@.sinks(ev.query@), final(self)@.sinks(ev.query@)),
            final(self)@ == old(self)@.delivered(ev.query@, final(self)@.sinks(ev.query@)),
    {
        let failed = match self.subscriptions.get_mut(&ev.query) {
            Some(sinks) => deliver_to(sinks, ev),
            None => Vec::new(),
        };
        proof {
            let before = old(self)@.sinks(ev.query@);
            let after = self@.sinks(ev.query@);
            assert(self@.active =~= old(self)@.delivered(ev.query@, after).active);
            if !old(self)@.active.contains_key(ev.query@) {
                assert(after =~= before);
                assert(texts(failed@) =~= refused(before, after));
            }
        }
        failed
    }

    /// Removes the sinks of `ids` from those registered for `query`: the
    /// sinks that a publish found disconnected.
    pub fn evict(&mut self, query: &str, ids: &Vec<SubscriptionId>)
        requires
            old(self).wf(),
        ensures
            final(self).wf(),
            final(self)@ == old(self)@.evicted(query@, texts(ids@)),
    {
        match self.subscriptions.get_mut(&String::from_str(query)) {
            Some(sinks) => {
                evict_from(sinks, ids);
            },
            None => {},
        }
        assert(self@.active =~= old(self)@.evicted(query@, texts(ids@)).active);
    }

    /// Publishes the given event to all of the subscriptions to which the
    /// event is relevant: those registered for exactly the query of the
    /// event. `Ok(ev)` is handed once to the sink of each. A sink that takes
    /// it stays; a sink that does not, because its receiver is gone or
    /// because it is bounded and full, is removed.
    pub fn publish(&mut self, ev: Event)
        requires
            old(self).wf(),
        ensures
            final(self).wf(),
            exists|after: Sinks|
                offered_each(old(self)@.sinks(ev.query@), ev, after) && final(self)@ == #[trigger] old(
                    self,
                )@.published(ev.query@, after),
    {
        let failed = self.deliver(&ev);
        let ghost after = self@.sinks(ev.query@);
        self.evict(ev.query.as_str(), &failed);
        assert(self@ == old(self)@.published(ev.query@, after));
    }

    /// The bookkeeping of a confirmed subscription: the pending subscribe
    /// request with the given id is taken off the record and its sink is
    /// registered. What comes back is what the answer needs, if there was
    /// such a request: the id of the subscription and the result channel.
    pub fn begin_confirm_add(&mut self, req_id: &str) -> (reply: Option<PendingReply>)
        requires
            old(self).wf(),
        ensures
            final(self).wf(),
            final(self)@ == old(self)@.add_confirmed(req_id@),
            reply is Some == old(self)@.pending_subscribe.contains_key(req_id@),
            reply is Some ==> reply->0.id@ == old(self)@.pending_subscribe[req_id@].id
                && reply->0.result_tx == old(self)@.pending_subscribe[req_id@].result_tx,
    {
        match self.pending_subscribe.remove(&String::from_str(req_id)) {
            Some(pending) => {
                assert(old(self)@.pending_subscribe[req_id@] == pending@);
                let PendingSubscribe { id, query, event_tx, result_tx } = pending;
                assert(self@.pending_subscribe =~= old(self)@.pending_subscribe.remove(req_id@));
                self.add(&id, query, event_tx);
                Some(PendingReply { id, result_tx })
            },
            None => {
                assert(self@.pending_subscribe =~= old(self)@.pending_subscribe);
                None
            },
        }
    }

    /// The bookkeeping of a refused subscription: the pending subscribe
    /// request with the given id is taken off the record and its sink is
    /// dropped. What comes back is what the answer needs, if there was such
    /// a request.
    pub fn begin_cancel_add(&mut self, req_id: &str) -> (reply: Option<PendingReply>)
        requires
            old(self).wf(),
        ensures
            final(self).wf(),
            final(self)@ == old(self)@.add_cancelled(req_id@),
            reply is Some == old(self)@.pending_subscribe.contains_key(req_id@),
            reply is Some ==> reply->0.id@ == old(self)@.pending_subscribe[req_id@].id
                && reply->0.result_tx == old(self)@.pending_subscribe[req_id@].result_tx,
    {
        let taken = self.pending_subscribe.remove(&String::from_str(req_id));
        assert(self@.pending_subscribe =~= old(self)@.pending_subscribe.remove(req_id@));
        match taken {
            Some(pending) => {
                assert(old(self)@.pending_subscribe[req_id@] == pending@);
                let PendingSubscribe { id, query: _, event_tx: _, result_tx } = pending;
                Some(PendingReply { id, result_tx })
            },
            None => None,
        }
    }

    /// The bookkeeping of a confirmed unsubscription: the pending
    /// unsubscribe request with the given id is taken off the record and the
    /// sink that it names is removed. What comes back is what the answer
    /// needs, if there was such a request.
    pub fn begin_confirm_remove(&mut self, req_id: &str) -> (reply: Option<PendingReply>)
        requires
            old(self).wf(),
        ensures
            final(self).wf(),
            final(self)@ == old(self)@.remove_confirmed(req_id@),
            reply is Some == old(self)@.pending_unsubscribe.contains_key(req_id@),
            reply is Some ==> reply->0.id@ == old(self)@.pending_unsubscribe[req_id@].id
                && reply->0.result_tx == old(self)@.pending_unsubscribe[req_id@].result_tx,
    {
        match self.pending_unsubscribe.remove(&String::from_str(req_id)) {
            Some(pending) => {
                assert(old(self)@.pending_unsubscribe[req_id@] == pending@);
                let PendingUnsubscribe { id, query, result_tx } = pending;
                assert(self@.pending_unsubscribe =~= old(self)@.pending_unsubscribe.remove(
                    req_id@,
                ));
                self.remove(&id, query);
                Some(PendingReply { id, result_tx })
            },
            None => {
                assert(self@.pending_unsubscribe =~= old(self)@.pending_unsubscribe);
                None
            },
        }
    }

    /// The bookkeeping of a refused unsubscription: the pending unsubscribe
    /// request with the given id is taken off the record and the subscription
    /// stays as it is. What comes back is what the answer needs, if there was
    /// such a request.
    pub fn begin_cancel_remove(&mut self, req_id: &str) -> (reply: Option<PendingReply>)
        requires
            old(self).wf(),
        ensures
            final(self).wf(),
            final(self)@ == old(self)@.remove_cancelled(req_id@),
            reply is Some == old(self)@.pending_unsubscribe.contains_key(req_id@),
            reply is Some ==> reply->0.id@ == old(self)@.pending_unsubscribe[req_id@].id
                && reply->0.result_tx == old(self)@.pending_unsubscribe[req_id@].result_tx,
    {
        let taken = self.pending_unsubscribe.remove(&String::from_str(req_id));
        assert(self@.pending_unsubscribe =~= old(self)@.pending_unsubscribe.remove(req_id@));
        match taken {
            Some(pending) => {
                assert(old(self)@.pending_unsubscribe[req_id@] == pending@);
                let PendingUnsubscribe { id, query: _, result_tx } = pending;
                Some(PendingReply { id, result_tx })
            },
            None => None,
        }
    }

    /// Attempts to confirm the pending subscription request with the given
    /// id: its sink is registered, and `Ok(())` is handed once to its result
    /// channel, without waiting. Without such a request nothing happens,
    /// with success.
    ///
    /// Returns an error if it fails to tell the caller that asked for the
    /// subscription of the success.
    pub fn confirm_add(&mut self, req_id: &str) -> (r: Result<(), Error>)
        requires
            old(self).wf(),
        ensures
            final(self).wf(),
            final(self)@ == old(self)@.add_confirmed(req_id@),
            !old(self)@.pending_subscribe.contains_key(req_id@) ==> r is Ok,
            old(self)@.pending_subscribe.contains_key(req_id@) ==> exists|after: ChannelTx<Outcome>|
                #[trigger] old(self)@.pending_subscribe[req_id@].result_tx.sent_as(
                    Ok(()),
                    r is Ok,
                    after,
                ),
            r is Err ==> r->Err_0@ == ErrorView::Internal(send_failure_text(SendFailure::Closed))
                || r->Err_0@ == ErrorView::Internal(send_failure_text(SendFailure::Full)),
    {
        match self.begin_confirm_add(req_id) {
            Some(reply) => {
                let mut result_tx = reply.result_tx;
                let ghost before = result_tx;
                let sent = result_tx.send(Ok(()));
                let r = reply_result(sent);
                assert(before.sent_as(Ok(()), r is Ok, result_tx));
                r
            },
            None => Ok(()),
        }
    }

    /// Attempts to cancel the pending subscription with the given id:
    /// `Err(err)` is handed once to its result channel, without waiting, for
    /// the caller that asked for the subscription, and the sink of the
    /// subscription is dropped. Without such a request nothing happens, with
    /// success.
    pub fn cancel_add(&mut self, req_id: &str, err: Error) -> (r: Result<(), Error>)
        requires
            old(self).wf(),
        ensures
            final(self).wf(),
            final(self)@ == old(self)@.add_cancelled(req_id@),
            !old(self)@.pending_subscribe.contains_key(req_id@) ==> r is Ok,
            old(self)@.pending_subscribe.contains_key(req_id@) ==> exists|after: ChannelTx<Outcome>|
                #[trigger] old(self)@.pending_subscribe[req_id@].result_tx.sent_as(
                    Err(err),
                    r is Ok,
                    after,
                ),
            r is Err ==> r->Err_0@ == ErrorView::Internal(
                cancel_failure_text(old(self)@.pending_subscribe[req_id@].id),
            ),
    {
        match self.begin_cancel_add(req_id) {
            Some(reply) => {
                let mut result_tx = reply.result_tx;
                let ghost before = result_tx;
                let sent = result_tx.send(Err(err));
                let r = cancel_reply_result(&reply.id, sent);
                assert(before.sent_as(Err(err), r is Ok, result_tx));
                r
            },
            None => Ok(()),
        }
    }

    /// Confirm the pending unsubscribe request for the subscription with the
    /// given id: the sink that the request names is removed, and `Ok(())` is
    /// handed once to its result channel, without waiting. Without such a
    /// request nothing happens, with success.
    pub fn confirm_remove(&mut self, req_id: &str) -> (r: Result<(), Error>)
        requires
            old(self).wf(),
        ensures
            final(self).wf(),
            final(self)@ == old(self)@.remove_confirmed(req_id@),
            !old(self)@.pending_unsubscribe.contains_key(req_id@) ==> r is Ok,
            old(self)@.pending_unsubscribe.contains_key(req_id@) ==> exists|
                after: ChannelTx<Outcome>,
            |
                #[trigger] old(self)@.pending_unsubscribe[req_id@].result_tx.sent_as(
                    Ok(()),
                    r is Ok,
                    after,
                ),
            r is Err ==> r->Err_0@ == ErrorView::Internal(send_failure_text(SendFailure::Closed))
                || r->Err_0@ == ErrorView::Internal(send_failure_text(SendFailure::Full)),
    {
        match self.begin_confirm_remove(req_id) {
            Some(reply) => {
                let mut result_tx = reply.result_tx;
                let ghost before = result_tx;
                let sent = result_tx.send(Ok(()));
                let r = reply_result(sent);
                assert(before.sent_as(Ok(()), r is Ok, result_tx));
                r
            },
            None => Ok(()),
        }
    }

    /// Cancel the pending unsubscribe request for the subscription with the
    /// given id: `Err(err)` is handed once to its result channel, without
    /// waiting. The subscription stays as it is. Without such a request
    /// nothing happens, with success.
    pub fn cancel_remove(&mut self, req_id: &str, err: Error) -> (r: Result<(), Error>)
        requires
            old(self).wf(),
        ensures
            final(self).wf(),
            final(self)@ == old(self)@.remove_cancelled(req_id@),
            !old(self)@.pending_unsubscribe.contains_key(req_id@) ==> r is Ok,
            old(self)@.pending_unsubscribe.contains_key(req_id@) ==> exists|
                after: ChannelTx<Outcome>,
            |
                #[trigger] old(self)@.pending_unsubscribe[req_id@].result_tx.sent_as(
                    Err(err),
                    r is Ok,
                    after,
                ),
            r is Err ==> r->Err_0@ == ErrorView::Internal(send_failure_text(SendFailure::Closed))
                || r->Err_0@ == ErrorView::Internal(send_failure_text(SendFailure::Full)),
    {
        match self.begin_cancel_remove(req_id) {
            Some(reply) => {
                let mut result_tx = reply.result_tx;
                let ghost before = result_tx;
                let sent = result_tx.send(Err(err));
                let r = reply_result(sent);
                assert(before.sent_as(Err(err), r is Ok, result_tx));
                r
            },
            None => Ok(()),
        }
    }

    /// Obtain a mutable reference to the sink of the subscription with the
    /// given id, if it is active. What becomes of the sink while the
    /// reference is held is part of the router's state afterwards.
    pub fn get_active_subscription_mut(&mut self, id: &SubscriptionId) -> (r: Option<
        &mut ChannelTx<Delivery>,
    >)
        requires
            old(self).wf(),
        ensures
            final(self).wf(),
            match r {
                Some(tx) => exists|query: Seq<char>|
                    {
                        &&& #[trigger] old(self)@.active.contains_key(query)
                        &&& old(self)@.active[query].contains_key(id@)
                        &&& *tx == old(self)@.active[query][id@]
                        &&& final(self)@ == old(self)@.added(id@, query, *final(tx))
                    },
                None => !old(self)@.is_active(id@) && final(self)@ == old(self)@,
            },
    {
        let key = id.to_string();
        let mut i: usize = 0;
        while i < self.subscriptions.len()
            invariant
                self.wf(),
                *self == *old(self),
                key@ == id@,
                i <= self.subscriptions.keys().len(),
                forall|j: int|
                    0 <= j < i ==> !(#[trigger] self.subscriptions.values()[j])@.contains_key(id@),
            decreases self.subscriptions.keys().len() - i,
        {
            proof {
                self.subscriptions.lemma_entries();
            }
            if self.subscriptions.value_at(i).contains_key(&key) {
                let ghost query = self.subscriptions.keys()[i as int];
                assert(old(self)@.active.contains_key(query));
                proof {
                    let subscriptions = self.subscriptions@;
                    assert forall|sinks: StringMap<ChannelTx<Delivery>>| #[trigger]
                        sinks_of(subscriptions.insert(query, sinks)) == sinks_of(
                            subscriptions,
                        ).insert(query, sinks@) by {
                        assert(sinks_of(subscriptions.insert(query, sinks)) =~= sinks_of(
                            subscriptions,
                        ).insert(query, sinks@));
                    }
                }
                let sinks = self.subscriptions.value_at_mut(i);
                return sinks.get_mut(&key);
            }
            i = i + 1;
        }
        proof {
            self.subscriptions.lemma_entries();
            assert forall|query: Seq<char>| #[trigger]
                self@.active.contains_key(query) implies !self@.active[query].contains_key(id@) by {
                let j = self.subscriptions.keys().index_of(query);
                assert(self.subscriptions.values()[j] == self.subscriptions@[query]);
            }
        }
        None
    }
}

} // verus!
