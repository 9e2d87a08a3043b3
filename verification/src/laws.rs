//! What holds of the router's state whatever is done with it.

use vstd::prelude::*;
use crate::event::Event;
use crate::model::{
    offered_each, refused, Operation, PendingSubscribeView, PendingUnsubscribeView, RouterState,
    Sinks, SubscriptionState,
};

verus! {

/// The state of a subscription is decided by the tables alone, and in this
/// order: it is pending exactly when a subscribe request is pending under
/// its id; cancelling exactly when none is but an unsubscribe request is;
/// active exactly when neither is and a sink is registered under the id; and
/// not found exactly when nothing is known under the id.
pub proof fn lemma_state_by_priority(s: RouterState, req_id: Seq<char>)
    ensures
        s.state_of(req_id) == SubscriptionState::Pending <==> s.pending_subscribe.contains_key(
            req_id,
        ),
        s.state_of(req_id) == SubscriptionState::Cancelling <==> !s.pending_subscribe.contains_key(
            req_id,
        ) && s.pending_unsubscribe.contains_key(req_id),
        s.state_of(req_id) == SubscriptionState::Active <==> !s.pending_subscribe.contains_key(
            req_id,
        ) && !s.pending_unsubscribe.contains_key(req_id) && s.is_active(req_id),
        s.state_of(req_id) == SubscriptionState::NotFound <==> !s.pending_subscribe.contains_key(
            req_id,
        ) && !s.pending_unsubscribe.contains_key(req_id) && !s.is_active(req_id),
{
}

/// An acknowledgement or a refusal for a request that is not pending
/// changes nothing, whatever the request id.
pub proof fn lemma_unknown_request_changes_nothing(s: RouterState, req_id: Seq<char>)
    ensures
        !s.pending_subscribe.contains_key(req_id) ==> s.add_confirmed(req_id) == s
            && s.add_cancelled(req_id) == s,
        !s.pending_unsubscribe.contains_key(req_id) ==> s.remove_confirmed(req_id) == s
            && s.remove_cancelled(req_id) == s,
{
    if !s.pending_subscribe.contains_key(req_id) {
        assert(s.pending_subscribe.remove(req_id) =~= s.pending_subscribe);
    }
    if !s.pending_unsubscribe.contains_key(req_id) {
        assert(s.pending_unsubscribe.remove(req_id) =~= s.pending_unsubscribe);
    }
}

/// A published event is handed once to every sink of its query. A sink that
/// takes it stays, and has enqueued `Ok(ev)` once after all that it had
/// enqueued before. A sink that does not take it is gone, and has enqueued
/// nothing more. Where every sink takes it, every sink stays. Sinks of other
/// queries are handed nothing.
pub proof fn lemma_publish_delivers_once(s: RouterState, ev: Event, after: Sinks)
    requires
        offered_each(s.sinks(ev.query@), ev, after),
    ensures
        forall|id: Seq<char>| #[trigger]
            s.sinks(ev.query@).contains_key(id) ==> {
                let before = s.sinks(ev.query@)[id];
                let published = s.published(ev.query@, after).sinks(ev.query@);
                &&& after[id].offered() == before.offered().push(Ok(ev))
                &&& if published.contains_key(id) {
                    published[id] == after[id] && after[id].sent() == before.sent().push(Ok(ev))
                } else {
                    after[id].sent() == before.sent()
                }
            },
        refused(s.sinks(ev.query@), after).is_empty() ==> s.published(ev.query@, after).sinks(
            ev.query@,
        ).dom() == s.sinks(ev.query@).dom(),
        forall|query: Seq<char>|
            query != ev.query@ ==> #[trigger] s.published(ev.query@, after).sinks(query) == s.sinks(
                query,
            ),
{
    let before = s.sinks(ev.query@);
    let published = s.published(ev.query@, after).sinks(ev.query@);
    assert forall|id: Seq<char>| #[trigger] before.contains_key(id) implies {
        &&& after[id].offered() == before[id].offered().push(Ok(ev))
        &&& if published.contains_key(id) {
            published[id] == after[id] && after[id].sent() == before[id].sent().push(Ok(ev))
        } else {
            after[id].sent() == before[id].sent()
        }
    } by {
        assert(before[id].tried(Ok(ev), after[id]));
        assert(before[id].sent().push(Ok(ev)).len() == before[id].sent().len() + 1);
        if refused(before, after).contains(id) {
        } else {
            assert(after[id].sent() != before[id].sent());
        }
    }
    if refused(before, after).is_empty() {
        assert forall|id: Seq<char>| before.contains_key(id) implies published.contains_key(id) by {
            assert(!refused(before, after).contains(id));
        }
        assert(published.dom() =~= before.dom());
    }
}

/// A sink that does not take a published event is gone once the event is
/// published, and is still gone when another event is published afterwards,
/// so that nothing is handed to it. No sink appears by publishing.
pub proof fn lemma_publish_evicts_failed(
    s: RouterState,
    ev: Event,
    after: Sinks,
    next: Event,
    next_after: Sinks,
)
    requires
        offered_each(s.sinks(ev.query@), ev, after),
    ensures
        forall|id: Seq<char>| #[trigger]
            refused(s.sinks(ev.query@), after).contains(id) ==> !s.published(ev.query@, after).sinks(
                ev.query@,
            ).contains_key(id) && (offered_each(
                s.published(ev.query@, after).sinks(next.query@),
                next,
                next_after,
            ) ==> !s.published(ev.query@, after).published(next.query@, next_after).sinks(
                ev.query@,
            ).contains_key(id)),
        forall|query: Seq<char>, id: Seq<char>| #[trigger]
            s.published(ev.query@, after).sinks(query).contains_key(id) ==> s.sinks(
                query,
            ).contains_key(id),
{
}

/// Publishing reaches no pending request: the requests stay as they are, and
/// with them the sink of each, to which nothing is handed, and the registered
/// sinks fare as they would without the requests.
pub proof fn lemma_pending_gates_delivery(
    s: RouterState,
    req_id: Seq<char>,
    pending: PendingSubscribeView,
    ev: Event,
    after: Sinks,
)
    ensures
        s.pending_added(req_id, pending).published(ev.query@, after).pending_subscribe[req_id]
            == pending,
        s.pending_added(req_id, pending).published(ev.query@, after).active == s.published(
            ev.query@,
            after,
        ).active,
        s.published(ev.query@, after).pending_subscribe == s.pending_subscribe,
        s.published(ev.query@, after).pending_unsubscribe == s.pending_unsubscribe,
{
}

/// An operation that registers no subscription id for a second query leaves
/// every id registered for at most one query.
pub proof fn lemma_step_keeps_ids_unique(s: RouterState, op: Operation)
    requires
        s.ids_unique(),
        s.keeps_ids_apart(op),
    ensures
        s.step(op).ids_unique(),
{
    let next = s.step(op);
    assert forall|q1: Seq<char>, q2: Seq<char>, id: Seq<char>|
        next.active.contains_key(q1) && #[trigger] next.active[q1].contains_key(id)
            && next.active.contains_key(q2) && #[trigger] next.active[q2].contains_key(
            id,
        ) implies q1 == q2 by {
        lemma_step_registers(s, op, q1, id);
        lemma_step_registers(s, op, q2, id);
    }
}

/// After one operation a sink is registered under an id and a query only if
/// it was before or the operation registers it.
pub proof fn lemma_step_registers(s: RouterState, op: Operation, query: Seq<char>, id: Seq<char>)
    requires
        s.step(op).active.contains_key(query),
        s.step(op).active[query].contains_key(id),
    ensures
        (s.active.contains_key(query) && s.active[query].contains_key(id)) || s.registered_by(op)
            == Some((id, query)),
{
}

/// An operation that puts no request id on record that is pending in the
/// other table leaves every request id pending in at most one table.
pub proof fn lemma_step_keeps_requests_apart(s: RouterState, op: Operation)
    requires
        s.pending_disjoint(),
        s.keeps_requests_apart(op),
    ensures
        s.step(op).pending_disjoint(),
{
    let next = s.step(op);
    assert forall|req_id: Seq<char>|
        !(#[trigger] next.pending_subscribe.contains_key(req_id)
            && next.pending_unsubscribe.contains_key(req_id)) by {
    }
}

/// Whatever operations a new router goes through, after each of them every
/// subscription id is registered for at most one query, as long as none of
/// them registers an id for a second query.
pub proof fn lemma_ids_always_unique(ops: Seq<Operation>)
    requires
        forall|i: int|
            0 <= i < ops.len() ==> #[trigger] RouterState::empty().run(ops.take(i)).keeps_ids_apart(
                ops[i],
            ),
    ensures
        forall|n: int| 0 <= n <= ops.len() ==> #[trigger] RouterState::empty().run(ops.take(n)).ids_unique(),
    decreases ops.len(),
{
    let start = RouterState::empty();
    if ops.len() == 0 {
        assert forall|n: int| 0 <= n <= ops.len() implies #[trigger] start.run(
            ops.take(n),
        ).ids_unique() by {
        }
    } else {
        let shorter = ops.drop_last();
        let last = ops.len() - 1;
        assert forall|i: int| 0 <= i < shorter.len() implies #[trigger] start.run(
            shorter.take(i),
        ).keeps_ids_apart(shorter[i]) by {
            assert(shorter.take(i) =~= ops.take(i));
        }
        lemma_ids_always_unique(shorter);
        assert forall|n: int| 0 <= n <= ops.len() implies #[trigger] start.run(
            ops.take(n),
        ).ids_unique() by {
            if n < ops.len() {
                assert(ops.take(n) =~= shorter.take(n));
            } else {
                assert(ops.take(n) =~= ops);
                assert(shorter.take(last) =~= shorter);
                lemma_step_keeps_ids_unique(start.run(shorter), ops.last());
            }
        }
    }
}

/// Whatever operations a new router goes through, after each of them every
/// request id is pending in at most one table, as long as none of them puts
/// an id on record that is pending in the other table.
pub proof fn lemma_requests_always_apart(ops: Seq<Operation>)
    requires
        forall|i: int|
            0 <= i < ops.len() ==> #[trigger] RouterState::empty().run(
                ops.take(i),
            ).keeps_requests_apart(ops[i]),
    ensures
        forall|n: int|
            0 <= n <= ops.len() ==> #[trigger] RouterState::empty().run(
                ops.take(n),
            ).pending_disjoint(),
    decreases ops.len(),
{
    let start = RouterState::empty();
    if ops.len() == 0 {
        assert forall|n: int| 0 <= n <= ops.len() implies #[trigger] start.run(
            ops.take(n),
        ).pending_disjoint() by {
        }
    } else {
        let shorter = ops.drop_last();
        let last = ops.len() - 1;
        assert forall|i: int| 0 <= i < shorter.len() implies #[trigger] start.run(
            shorter.take(i),
        ).keeps_requests_apart(shorter[i]) by {
            assert(shorter.take(i) =~= ops.take(i));
        }
        lemma_requests_always_apart(shorter);
        assert forall|n: int| 0 <= n <= ops.len() implies #[trigger] start.run(
            ops.take(n),
        ).pending_disjoint() by {
            if n < ops.len() {
                assert(ops.take(n) =~= shorter.take(n));
            } else {
                assert(ops.take(n) =~= ops);
                assert(shorter.take(last) =~= shorter);
                lemma_step_keeps_requests_apart(start.run(shorter), ops.last());
            }
        }
    }
}

/// The way of a subscription whose requests go under its own id: a pending
/// subscribe request makes it pending; its acknowledgement makes it active,
/// its refusal leaves nothing of it; a pending unsubscribe request makes an
/// active one cancelling; the acknowledgement of that ends it, the refusal
/// leaves it active.
pub proof fn lemma_lifecycle(
    s: RouterState,
    id: Seq<char>,
    subscribe: PendingSubscribeView,
    unsubscribe: PendingUnsubscribeView,
)
    requires
        subscribe.id == id,
        unsubscribe.id == id,
    ensures
        s.pending_added(id, subscribe).state_of(id) == SubscriptionState::Pending,
        !s.pending_unsubscribe.contains_key(id) ==> s.pending_added(id, subscribe).add_confirmed(
            id,
        ).state_of(id) == SubscriptionState::Active,
        !s.pending_unsubscribe.contains_key(id) && !s.is_active(id) ==> s.pending_added(
            id,
            subscribe,
        ).add_cancelled(id).state_of(id) == SubscriptionState::NotFound,
        !s.pending_subscribe.contains_key(id) ==> s.pending_removed(id, unsubscribe).state_of(id)
            == SubscriptionState::Cancelling,
        !s.pending_subscribe.contains_key(id) && !s.registered_elsewhere(id, unsubscribe.query)
            ==> s.pending_removed(id, unsubscribe).remove_confirmed(id).state_of(id)
            == SubscriptionState::NotFound,
        !s.pending_subscribe.contains_key(id) && s.is_active(id) ==> s.pending_removed(
            id,
            unsubscribe,
        ).remove_cancelled(id).state_of(id) == SubscriptionState::Active,
{
    let pending = s.pending_added(id, subscribe);
    let confirmed = pending.add_confirmed(id);
    assert(confirmed.active.contains_key(subscribe.query) && confirmed.active[subscribe.query].contains_key(
        id,
    ));
    assert(confirmed.pending_subscribe =~= s.pending_subscribe.remove(id));
    let cancelled = pending.add_cancelled(id);
    assert(cancelled.pending_subscribe =~= s.pending_subscribe.remove(id));
    assert(cancelled.active == s.active);
    assert(cancelled.is_active(id) == s.is_active(id));
    let cancelling = s.pending_removed(id, unsubscribe);
    let ended = cancelling.remove_confirmed(id);
    assert(ended.pending_unsubscribe =~= s.pending_unsubscribe.remove(id));
    if !s.registered_elsewhere(id, unsubscribe.query) {
        if ended.is_active(id) {
            let query = choose|query: Seq<char>| #[trigger]
                ended.active.contains_key(query) && ended.active[query].contains_key(id);
            assert(s.active.contains_key(query) && s.active[query].contains_key(id));
            assert(false);
        }
    }
    let kept = cancelling.remove_cancelled(id);
    assert(kept.pending_unsubscribe =~= s.pending_unsubscribe.remove(id));
    assert(kept.active == s.active);
    assert(kept.is_active(id) == s.is_active(id));
}

} // verus!
