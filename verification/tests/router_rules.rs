use rpc_subscriptions::channels::{bounded, unbounded};
use rpc_subscriptions::router::{cancel_reply_result, reply_result};
use rpc_subscriptions::{
    Error, Event, Polled, SendFailure, SubscriptionId, SubscriptionRouter, SubscriptionState,
};

fn event(query: &str, data: &str) -> Event {
    Event { query: query.to_string(), data: data.to_string() }
}

#[test]
fn disconnected_consumer_is_reaped() {
    let mut router = SubscriptionRouter::new();
    let x = SubscriptionId::default();
    let y = SubscriptionId::default();
    let (x_tx, x_rx) = unbounded();
    let (y_tx, mut y_rx) = unbounded();
    router.add(&x, "q".to_string(), x_tx);
    router.add(&y, "q".to_string(), y_tx);
    assert!(router.is_active(&x));
    drop(x_rx);
    router.publish(event("q", "1"));
    assert!(!router.is_active(&x));
    assert!(router.is_active(&y));
    assert_eq!(y_rx.try_recv(), Polled::Ready(Ok(event("q", "1"))));
    router.publish(event("q", "2"));
    assert_eq!(y_rx.try_recv(), Polled::Ready(Ok(event("q", "2"))));
    assert_eq!(y_rx.try_recv(), Polled::Pending);
}

#[test]
fn full_bounded_sink_is_evicted() {
    let mut router = SubscriptionRouter::new();
    let id = SubscriptionId::default();
    let (tx, mut rx) = bounded(1);
    router.add(&id, "q".to_string(), tx);
    router.publish(event("q", "1"));
    assert!(router.is_active(&id));
    router.publish(event("q", "2"));
    assert!(!router.is_active(&id));
    assert_eq!(rx.try_recv(), Polled::Ready(Ok(event("q", "1"))));
    assert_eq!(rx.try_recv(), Polled::Closed);
}

#[test]
fn publish_without_sinks_is_a_no_op() {
    let mut router = SubscriptionRouter::new();
    router.publish(event("nobody", "1"));
    let id = SubscriptionId::default();
    let (tx, mut rx) = unbounded();
    router.add(&id, "q".to_string(), tx);
    router.publish(event("nobody", "1"));
    router.publish(event("Q", "1"));
    router.publish(event("q ", "1"));
    assert_eq!(rx.try_recv(), Polled::Pending);
    assert!(router.is_active(&id));
}

#[test]
fn unknown_request_is_a_successful_no_op() {
    let mut router = SubscriptionRouter::new();
    let id = SubscriptionId::default();
    let (tx, mut rx) = unbounded();
    router.add(&id, "q".to_string(), tx);
    let err = Error::Server("refused".to_string());
    assert_eq!(router.confirm_add("unknown"), Ok(()));
    assert_eq!(router.cancel_add("unknown", err.clone()), Ok(()));
    assert_eq!(router.confirm_remove("unknown"), Ok(()));
    assert_eq!(router.cancel_remove("unknown", err.clone()), Ok(()));
    // the id of an active subscription is no pending request either
    assert_eq!(router.confirm_remove(id.as_str()), Ok(()));
    assert_eq!(router.cancel_add(id.as_str(), err), Ok(()));
    assert_eq!(router.subscription_state("unknown"), SubscriptionState::NotFound);
    assert_eq!(router.subscription_state(id.as_str()), SubscriptionState::Active);
    router.publish(event("q", "1"));
    assert_eq!(rx.try_recv(), Polled::Ready(Ok(event("q", "1"))));
}

#[test]
fn readding_an_id_replaces_its_sink() {
    let mut router = SubscriptionRouter::new();
    let id = SubscriptionId::default();
    let (first_tx, mut first_rx) = unbounded();
    let (second_tx, mut second_rx) = unbounded();
    router.add(&id, "q".to_string(), first_tx);
    router.add(&id, "q".to_string(), second_tx);
    router.publish(event("q", "1"));
    assert_eq!(first_rx.try_recv(), Polled::Closed);
    assert_eq!(second_rx.try_recv(), Polled::Ready(Ok(event("q", "1"))));
    assert_eq!(second_rx.try_recv(), Polled::Pending);
}

#[test]
fn remove_takes_the_sink_of_that_query_only() {
    let mut router = SubscriptionRouter::new();
    let id = SubscriptionId::default();
    let (tx, mut rx) = unbounded();
    router.add(&id, "q".to_string(), tx);
    router.remove(&id, "other".to_string());
    router.remove(&SubscriptionId::default(), "q".to_string());
    assert!(router.is_active(&id));
    router.remove(&id, "q".to_string());
    assert!(!router.is_active(&id));
    router.publish(event("q", "1"));
    assert_eq!(rx.try_recv(), Polled::Closed);
    router.remove(&id, "q".to_string());
    assert!(!router.is_active(&id));
}

#[test]
fn an_id_added_for_two_queries_is_listed_twice() {
    let mut router = SubscriptionRouter::new();
    let id = SubscriptionId::default();
    let (a_tx, mut a_rx) = unbounded();
    let (b_tx, mut b_rx) = unbounded();
    router.add(&id, "a".to_string(), a_tx);
    router.add(&id, "b".to_string(), b_tx);
    router.publish(event("a", "1"));
    assert_eq!(a_rx.try_recv(), Polled::Ready(Ok(event("a", "1"))));
    assert_eq!(b_rx.try_recv(), Polled::Pending);
    router.remove(&id, "a".to_string());
    assert!(router.is_active(&id));
    router.remove(&id, "b".to_string());
    assert!(!router.is_active(&id));
}

#[test]
fn evict_removes_the_named_sinks() {
    let mut router = SubscriptionRouter::new();
    let a = SubscriptionId::default();
    let b = SubscriptionId::default();
    let c = SubscriptionId::default();
    let (a_tx, _a_rx) = unbounded();
    let (b_tx, _b_rx) = unbounded();
    let (c_tx, _c_rx) = unbounded();
    router.add(&a, "q".to_string(), a_tx);
    router.add(&b, "q".to_string(), b_tx);
    router.add(&c, "p".to_string(), c_tx);
    router.evict("q", &vec![a.clone(), c.clone(), SubscriptionId::default()]);
    assert!(!router.is_active(&a));
    assert!(router.is_active(&b));
    assert!(router.is_active(&c));
    router.evict("nobody", &vec![b.clone()]);
    router.evict("q", &vec![]);
    assert!(router.is_active(&b));
}

#[test]
fn active_sink_can_be_borrowed() {
    let mut router = SubscriptionRouter::new();
    let id = SubscriptionId::default();
    let (tx, mut rx) = unbounded();
    router.add(&id, "q".to_string(), tx);
    assert!(router.get_active_subscription_mut(&SubscriptionId::default()).is_none());
    let err = Error::Transport("connection lost".to_string());
    match router.get_active_subscription_mut(&id) {
        Some(sink) => assert_eq!(sink.send(Err(err.clone())), Ok(())),
        None => panic!("the subscription is active"),
    }
    assert_eq!(rx.try_recv(), Polled::Ready(Err(err)));
    router.publish(event("q", "1"));
    assert_eq!(rx.try_recv(), Polled::Ready(Ok(event("q", "1"))));
}

#[test]
fn pending_sink_cannot_be_borrowed() {
    let mut router = SubscriptionRouter::new();
    let id = SubscriptionId::default();
    let (event_tx, _event_rx) = unbounded();
    let (result_tx, _result_rx) = unbounded();
    router.pending_add(id.as_str(), &id, "q".to_string(), event_tx, result_tx);
    assert!(!router.is_active(&id));
    assert!(router.get_active_subscription_mut(&id).is_none());
}

#[test]
fn confirm_add_reports_a_reply_that_cannot_be_given() {
    let mut router = SubscriptionRouter::new();
    let id = SubscriptionId::default();
    let (event_tx, mut event_rx) = unbounded();
    let (result_tx, result_rx) = unbounded();
    router.pending_add("req-1", &id, "q".to_string(), event_tx, result_tx);
    drop(result_rx);
    assert_eq!(router.confirm_add("req-1"), Err(SendFailure::Closed.to_error()));
    // the subscription is installed all the same
    assert!(router.is_active(&id));
    assert_eq!(router.subscription_state("req-1"), SubscriptionState::NotFound);
    router.publish(event("q", "1"));
    assert_eq!(event_rx.try_recv(), Polled::Ready(Ok(event("q", "1"))));
}

#[test]
fn cancel_add_names_the_subscription_it_could_not_answer() {
    let mut router = SubscriptionRouter::new();
    let id = SubscriptionId::from_string("subs-7");
    let (event_tx, mut event_rx) = unbounded();
    let (result_tx, result_rx) = unbounded();
    router.pending_add("req-1", &id, "q".to_string(), event_tx, result_tx);
    drop(result_rx);
    assert_eq!(
        router.cancel_add("req-1", Error::Server("refused".to_string())),
        Err(Error::Internal(
            "failed to communicate result of pending subscription with ID: subs-7".to_string()
        ))
    );
    assert_eq!(router.subscription_state("req-1"), SubscriptionState::NotFound);
    assert!(!router.is_active(&id));
    assert_eq!(event_rx.try_recv(), Polled::Closed);
}

#[test]
fn cancel_remove_leaves_the_subscription_active() {
    let mut router = SubscriptionRouter::new();
    let id = SubscriptionId::default();
    let (event_tx, mut event_rx) = unbounded();
    router.add(&id, "q".to_string(), event_tx);
    let (result_tx, mut result_rx) = unbounded();
    router.pending_remove(id.as_str(), &id, "q".to_string(), result_tx);
    assert_eq!(router.subscription_state(id.as_str()), SubscriptionState::Cancelling);
    // a cancelling subscription still receives
    router.publish(event("q", "1"));
    assert_eq!(event_rx.try_recv(), Polled::Ready(Ok(event("q", "1"))));
    let err = Error::Server("cannot unsubscribe".to_string());
    assert_eq!(router.cancel_remove(id.as_str(), err.clone()), Ok(()));
    assert_eq!(result_rx.try_recv(), Polled::Ready(Err(err)));
    assert_eq!(router.subscription_state(id.as_str()), SubscriptionState::Active);
    router.publish(event("q", "2"));
    assert_eq!(event_rx.try_recv(), Polled::Ready(Ok(event("q", "2"))));
}

#[test]
fn confirm_remove_ends_the_subscription() {
    let mut router = SubscriptionRouter::new();
    let id = SubscriptionId::default();
    let (event_tx, mut event_rx) = unbounded();
    router.add(&id, "q".to_string(), event_tx);
    router.publish(event("q", "before"));
    let (result_tx, mut result_rx) = unbounded();
    router.pending_remove("req-9", &id, "q".to_string(), result_tx);
    assert_eq!(router.subscription_state("req-9"), SubscriptionState::Cancelling);
    assert_eq!(router.confirm_remove("req-9"), Ok(()));
    assert_eq!(result_rx.try_recv(), Polled::Ready(Ok(())));
    assert_eq!(router.subscription_state("req-9"), SubscriptionState::NotFound);
    assert!(!router.is_active(&id));
    router.publish(event("q", "after"));
    // what was enqueued before stays visible, nothing comes after
    assert_eq!(event_rx.try_recv(), Polled::Ready(Ok(event("q", "before"))));
    assert_eq!(event_rx.try_recv(), Polled::Closed);
}

#[test]
fn confirm_and_cancel_remove_report_a_reply_that_cannot_be_given() {
    let mut router = SubscriptionRouter::new();
    let id = SubscriptionId::default();
    let (event_tx, _event_rx) = unbounded();
    router.add(&id, "q".to_string(), event_tx);
    let (result_tx, result_rx) = unbounded();
    router.pending_remove("req-1", &id, "q".to_string(), result_tx);
    drop(result_rx);
    assert_eq!(
        router.cancel_remove("req-1", Error::Server("no".to_string())),
        Err(SendFailure::Closed.to_error())
    );
    assert!(router.is_active(&id));
    let (result_tx, result_rx) = unbounded();
    router.pending_remove("req-2", &id, "q".to_string(), result_tx);
    drop(result_rx);
    assert_eq!(router.confirm_remove("req-2"), Err(SendFailure::Closed.to_error()));
    assert!(!router.is_active(&id));
}

#[test]
fn pending_request_under_a_used_id_is_replaced() {
    let mut router = SubscriptionRouter::new();
    let first = SubscriptionId::default();
    let second = SubscriptionId::default();
    let (first_event_tx, _first_event_rx) = unbounded();
    let (first_result_tx, mut first_result_rx) = unbounded();
    let (second_event_tx, _second_event_rx) = unbounded();
    let (second_result_tx, mut second_result_rx) = unbounded();
    router.pending_add("req", &first, "q".to_string(), first_event_tx, first_result_tx);
    router.pending_add("req", &second, "q".to_string(), second_event_tx, second_result_tx);
    assert_eq!(first_result_rx.try_recv(), Polled::Closed);
    assert_eq!(router.confirm_add("req"), Ok(()));
    assert_eq!(second_result_rx.try_recv(), Polled::Ready(Ok(())));
    assert!(!router.is_active(&first));
    assert!(router.is_active(&second));
}

#[test]
fn state_goes_by_priority() {
    let mut router = SubscriptionRouter::new();
    let id = SubscriptionId::default();
    let (event_tx, _event_rx) = unbounded();
    router.add(&id, "q".to_string(), event_tx);
    assert_eq!(router.subscription_state(id.as_str()), SubscriptionState::Active);
    let (result_tx, _unsub_rx) = unbounded();
    router.pending_remove(id.as_str(), &id, "q".to_string(), result_tx);
    assert_eq!(router.subscription_state(id.as_str()), SubscriptionState::Cancelling);
    let (other_tx, _other_rx) = unbounded();
    let (result_tx, _sub_rx) = unbounded();
    router.pending_add(id.as_str(), &id, "q".to_string(), other_tx, result_tx);
    assert_eq!(router.subscription_state(id.as_str()), SubscriptionState::Pending);
}

#[test]
fn what_the_router_returns_for_a_reply() {
    assert_eq!(reply_result(Ok(())), Ok(()));
    assert_eq!(reply_result(Err(SendFailure::Full)), Err(SendFailure::Full.to_error()));
    assert_eq!(reply_result(Err(SendFailure::Closed)), Err(SendFailure::Closed.to_error()));
    let id = SubscriptionId::from_string("abc");
    assert_eq!(cancel_reply_result(&id, Ok(())), Ok(()));
    assert_eq!(
        cancel_reply_result(&id, Err(SendFailure::Closed)),
        Err(Error::Internal(
            "failed to communicate result of pending subscription with ID: abc".to_string()
        ))
    );
}

#[test]
fn an_id_confirmed_once_is_listed_for_one_query() {
    let mut router = SubscriptionRouter::new();
    let id = SubscriptionId::default();
    let (event_tx, mut event_rx) = unbounded();
    let (result_tx, _result_rx) = unbounded();
    router.pending_add(id.as_str(), &id, "a".to_string(), event_tx, result_tx);
    assert_eq!(router.confirm_add(id.as_str()), Ok(()));
    // a late, second acknowledgement registers nothing anew
    assert_eq!(router.confirm_add(id.as_str()), Ok(()));
    router.publish(event("b", "1"));
    assert_eq!(event_rx.try_recv(), Polled::Pending);
    router.remove(&id, "b".to_string());
    assert!(router.is_active(&id));
    router.remove(&id, "a".to_string());
    assert!(!router.is_active(&id));
}

#[test]
fn each_live_sink_gets_each_event_once_and_in_order() {
    let mut router = SubscriptionRouter::new();
    let mut receivers = Vec::new();
    for _ in 0..4 {
        let id = SubscriptionId::default();
        let (tx, rx) = unbounded();
        router.add(&id, "q".to_string(), tx);
        receivers.push((id, rx));
    }
    for n in 0..3 {
        router.publish(event("q", &format!("{}", n)));
    }
    for (id, rx) in receivers.iter_mut() {
        assert!(router.is_active(id));
        for n in 0..3 {
            assert_eq!(rx.try_recv(), Polled::Ready(Ok(event("q", &format!("{}", n)))));
        }
        assert_eq!(rx.try_recv(), Polled::Pending);
    }
}

#[test]
fn bookkeeping_of_an_answer_hands_out_the_result_channel() {
    let mut router = SubscriptionRouter::new();
    let id = SubscriptionId::from_string("subs-1");
    let (event_tx, mut event_rx) = unbounded();
    let (result_tx, mut result_rx) = unbounded();
    router.pending_add("req-1", &id, "q".to_string(), event_tx, result_tx);
    assert!(router.begin_confirm_add("other").is_none());
    let mut reply = match router.begin_confirm_add("req-1") {
        Some(reply) => reply,
        None => panic!("the request is pending"),
    };
    assert_eq!(reply.id, id);
    assert_eq!(router.subscription_state("req-1"), SubscriptionState::NotFound);
    assert!(router.is_active(&id));
    assert_eq!(result_rx.try_recv(), Polled::Pending);
    assert_eq!(reply.result_tx.send(Ok(())), Ok(()));
    assert_eq!(result_rx.try_recv(), Polled::Ready(Ok(())));
    router.publish(event("q", "1"));
    assert_eq!(event_rx.try_recv(), Polled::Ready(Ok(event("q", "1"))));
    assert!(router.begin_confirm_add("req-1").is_none());

    let (result_tx, mut result_rx) = unbounded();
    router.pending_remove("req-2", &id, "q".to_string(), result_tx);
    let mut reply = match router.begin_cancel_remove("req-2") {
        Some(reply) => reply,
        None => panic!("the request is pending"),
    };
    assert_eq!(reply.id, id);
    assert!(router.is_active(&id));
    let err = Error::Server("no".to_string());
    assert_eq!(reply.result_tx.send(Err(err.clone())), Ok(()));
    assert_eq!(result_rx.try_recv(), Polled::Ready(Err(err)));

    let (result_tx, _result_rx) = unbounded();
    router.pending_remove("req-3", &id, "q".to_string(), result_tx);
    assert!(router.begin_confirm_remove("req-3").is_some());
    assert!(!router.is_active(&id));
    assert!(router.begin_confirm_remove("req-3").is_none());

    let (event_tx, mut event_rx) = unbounded();
    let (result_tx, _result_rx) = unbounded();
    router.pending_add("req-4", &id, "q".to_string(), event_tx, result_tx);
    assert!(router.begin_cancel_add("req-4").is_some());
    assert_eq!(router.subscription_state("req-4"), SubscriptionState::NotFound);
    assert!(!router.is_active(&id));
    assert_eq!(event_rx.try_recv(), Polled::Closed);
}

#[test]
fn full_result_channel_is_reported_by_the_router_that_cannot_wait() {
    let mut router = SubscriptionRouter::new();
    let id = SubscriptionId::default();
    let (event_tx, _event_rx) = unbounded();
    let (mut result_tx, _result_rx) = bounded(1);
    assert_eq!(result_tx.send(Ok(())), Ok(()));
    router.pending_add("req", &id, "q".to_string(), event_tx, result_tx);
    assert_eq!(router.confirm_add("req"), Err(SendFailure::Full.to_error()));
    assert!(router.is_active(&id));
}
