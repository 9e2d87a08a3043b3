use rpc_subscriptions::{
    unbounded, ChannelRx, Error, Event, Polled, SubscriptionId, SubscriptionRouter,
    SubscriptionState,
};

fn new_block_event(query: &str) -> Event {
    Event { query: query.to_string(), data: "event_new_block_1".to_string() }
}

fn must_recv<T>(ch: &mut ChannelRx<T>) -> T {
    match ch.try_recv() {
        Polled::Ready(v) => v,
        Polled::Pending => panic!("nothing waits in the channel"),
        Polled::Closed => panic!("the channel is closed"),
    }
}

fn must_not_recv<T: std::fmt::Debug>(ch: &mut ChannelRx<T>) {
    if let Polled::Ready(v) = ch.try_recv() {
        panic!("got unexpected result from channel: {:?}", v)
    }
}

#[test]
fn router_basic_pub_sub() {
    let mut router = SubscriptionRouter::default();

    let (subs1_id, subs2_id, subs3_id) =
        (SubscriptionId::default(), SubscriptionId::default(), SubscriptionId::default());
    let (subs1_event_tx, mut subs1_event_rx) = unbounded();
    let (subs2_event_tx, mut subs2_event_rx) = unbounded();
    let (subs3_event_tx, mut subs3_event_rx) = unbounded();

    // Two subscriptions with the same query
    router.add(&subs1_id, "query1".into(), subs1_event_tx);
    router.add(&subs2_id, "query1".into(), subs2_event_tx);
    // Another subscription with a different query
    router.add(&subs3_id, "query2".into(), subs3_event_tx);

    let mut ev = new_block_event("query1");
    router.publish(ev.clone());

    let subs1_ev = must_recv(&mut subs1_event_rx).unwrap();
    let subs2_ev = must_recv(&mut subs2_event_rx).unwrap();
    must_not_recv(&mut subs3_event_rx);
    assert_eq!(ev, subs1_ev);
    assert_eq!(ev, subs2_ev);

    ev.query = "query2".into();
    router.publish(ev.clone());

    must_not_recv(&mut subs1_event_rx);
    must_not_recv(&mut subs2_event_rx);
    let subs3_ev = must_recv(&mut subs3_event_rx).unwrap();
    assert_eq!(ev, subs3_ev);
}

#[test]
fn router_pending_subscription() {
    let mut router = SubscriptionRouter::default();
    let subs_id = SubscriptionId::default();
    let (event_tx, mut event_rx) = unbounded();
    let (result_tx, mut result_rx) = unbounded();
    let query = "query".to_string();
    let ev = new_block_event("query");

    assert_eq!(SubscriptionState::NotFound, router.subscription_state(&subs_id.to_string()));
    router.pending_add(subs_id.as_str(), &subs_id, query.clone(), event_tx, result_tx);
    assert_eq!(SubscriptionState::Pending, router.subscription_state(subs_id.as_str()));
    router.publish(ev.clone());
    must_not_recv(&mut event_rx);

    router.confirm_add(subs_id.as_str()).unwrap();
    assert_eq!(SubscriptionState::Active, router.subscription_state(subs_id.as_str()));
    must_not_recv(&mut event_rx);
    let _ = must_recv(&mut result_rx);

    router.publish(ev.clone());
    let received_ev = must_recv(&mut event_rx).unwrap();
    assert_eq!(ev, received_ev);

    let (result_tx, mut result_rx) = unbounded();
    router.pending_remove(subs_id.as_str(), &subs_id, query.clone(), result_tx);
    assert_eq!(SubscriptionState::Cancelling, router.subscription_state(subs_id.as_str()),);

    router.confirm_remove(subs_id.as_str()).unwrap();
    assert_eq!(SubscriptionState::NotFound, router.subscription_state(subs_id.as_str()));
    router.publish(ev.clone());
    if must_recv(&mut result_rx).is_err() {
        panic!("we should have received successful confirmation of the unsubscribe request")
    }
}

#[test]
fn router_cancel_pending_subscription() {
    let mut router = SubscriptionRouter::default();
    let subs_id = SubscriptionId::default();
    let (event_tx, mut event_rx) = unbounded::<Result<Event, Error>>();
    let (result_tx, mut result_rx) = unbounded::<Result<(), Error>>();
    let query = "query".to_string();
    let ev = new_block_event("query");

    assert_eq!(SubscriptionState::NotFound, router.subscription_state(subs_id.as_str()));
    router.pending_add(subs_id.as_str(), &subs_id, query, event_tx, result_tx);
    assert_eq!(SubscriptionState::Pending, router.subscription_state(subs_id.as_str()));
    router.publish(ev.clone());
    must_not_recv(&mut event_rx);

    let cancel_error = Error::client_internal_error("cancelled".to_string());
    router.cancel_add(subs_id.as_str(), cancel_error.clone()).unwrap();
    assert_eq!(SubscriptionState::NotFound, router.subscription_state(subs_id.as_str()));
    assert_eq!(Err(cancel_error), must_recv(&mut result_rx));

    router.publish(ev.clone());
    must_not_recv(&mut event_rx);
}
