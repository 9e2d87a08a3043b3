use rpc_subscriptions::channels::{bounded, unbounded};
use rpc_subscriptions::subscription::{termination_result, termination_send_error};
use rpc_subscriptions::{
    Error, Event, Polled, SendFailure, Subscription, SubscriptionId, SubscriptionRouter,
    TerminateSubscription,
};

#[test]
fn subscription_yields_events_in_publish_order() {
    let mut router = SubscriptionRouter::new();
    let id = SubscriptionId::default();
    let (event_tx, event_rx) = unbounded();
    let (terminate_tx, _terminate_rx) = unbounded::<TerminateSubscription>();
    let mut subs = Subscription::new(id.clone(), "q".to_string(), event_rx, terminate_tx);
    assert_eq!(subs.id, id);
    assert_eq!(subs.query, "q");
    router.add(&id, "q".to_string(), event_tx);

    assert_eq!(subs.try_next(), Polled::Pending);
    for n in 0..5 {
        router.publish(Event { query: "q".to_string(), data: format!("block {}", n) });
    }
    for n in 0..5 {
        let expected = Event { query: "q".to_string(), data: format!("block {}", n) };
        assert_eq!(subs.try_next(), Polled::Ready(Ok(expected)));
    }
    assert_eq!(subs.try_next(), Polled::Pending);

    router.remove(&id, "q".to_string());
    assert_eq!(subs.try_next(), Polled::Closed);
    assert_eq!(subs.event_rx_mut().try_recv(), Polled::Closed);
}

#[test]
fn subscription_passes_on_errors_from_upstream() {
    let (mut event_tx, event_rx) = unbounded();
    let (terminate_tx, _terminate_rx) = unbounded::<TerminateSubscription>();
    let mut subs =
        Subscription::new(SubscriptionId::default(), "q".to_string(), event_rx, terminate_tx);
    let err = Error::Transport("connection reset".to_string());
    assert_eq!(event_tx.send(Err(err.clone())), Ok(()));
    assert_eq!(subs.try_next(), Polled::Ready(Err(err)));
}

#[test]
fn terminate_round_trip() {
    let id = SubscriptionId::default();
    let (_event_tx, event_rx) = unbounded();
    let (terminate_tx, mut terminate_rx) = unbounded::<TerminateSubscription>();
    let subs = Subscription::new(id.clone(), "q".to_string(), event_rx, terminate_tx);

    let mut result_rx = subs.request_termination().unwrap();
    let mut request = match terminate_rx.try_recv() {
        Polled::Ready(request) => request,
        _ => panic!("no termination request on the control channel"),
    };
    assert_eq!(request.id, id);
    assert_eq!(request.query, "q");
    // exactly once: the handle was consumed, so the control channel is closed
    assert!(matches!(terminate_rx.try_recv(), Polled::Closed));

    assert_eq!(result_rx.try_recv(), Polled::Pending);
    assert_eq!(request.result_tx.send(Ok(())), Ok(()));
    let reply = match result_rx.try_recv() {
        Polled::Ready(reply) => Some(reply),
        _ => None,
    };
    assert_eq!(termination_result(reply), Ok(()));
}

#[test]
fn terminate_passes_on_the_answer_of_the_driver() {
    let err = Error::Server("no such subscription".to_string());
    assert_eq!(termination_result(Some(Err(err.clone()))), Err(err));
    assert_eq!(termination_result(Some(Ok(()))), Ok(()));
}

#[test]
fn terminate_without_reply() {
    let (_event_tx, event_rx) = unbounded();
    let (terminate_tx, mut terminate_rx) = unbounded::<TerminateSubscription>();
    let subs = Subscription::new(SubscriptionId::default(), "q".to_string(), event_rx, terminate_tx);
    let mut result_rx = subs.request_termination().unwrap();
    match terminate_rx.try_recv() {
        Polled::Ready(request) => drop(request),
        _ => panic!("no termination request on the control channel"),
    }
    assert_eq!(result_rx.try_recv(), Polled::Closed);
    assert_eq!(
        termination_result(None),
        Err(Error::Internal(
            "failed to hear back from subscription termination request".to_string()
        ))
    );
}

#[test]
fn terminate_with_closed_control_channel() {
    let (_event_tx, event_rx) = unbounded();
    let (terminate_tx, terminate_rx) = unbounded::<TerminateSubscription>();
    drop(terminate_rx);
    let subs = Subscription::new(SubscriptionId::default(), "q".to_string(), event_rx, terminate_tx);
    match subs.request_termination() {
        Err(e) => assert_eq!(e, termination_send_error(SendFailure::Closed)),
        Ok(_) => panic!("the request cannot have been enqueued"),
    }
    assert_eq!(
        termination_send_error(SendFailure::Closed),
        Error::Transport("failed to send message to internal channel: channel closed".to_string())
    );
}

#[test]
fn request_termination_does_not_wait_for_room() {
    let (_event_tx, event_rx) = unbounded();
    let (mut terminate_tx, _terminate_rx) = bounded::<TerminateSubscription>(1);
    let (result_tx, _result_rx) = unbounded();
    let filler =
        TerminateSubscription { id: SubscriptionId::default(), query: "x".to_string(), result_tx };
    assert!(terminate_tx.send(filler).is_ok());
    let subs = Subscription::new(SubscriptionId::default(), "q".to_string(), event_rx, terminate_tx);
    match subs.request_termination() {
        Err(e) => assert_eq!(
            e,
            Error::Transport(
                "failed to send message to internal channel: no available capacity".to_string()
            )
        ),
        Ok(_) => panic!("the request cannot have been enqueued"),
    }
}

#[test]
fn into_termination_names_the_subscription() {
    let id = SubscriptionId::default();
    let (_event_tx, event_rx) = unbounded();
    let (terminate_tx, _terminate_rx) = unbounded::<TerminateSubscription>();
    let subs = Subscription::new(id.clone(), "q".to_string(), event_rx, terminate_tx);
    let (_control, mut request, mut result_rx) = subs.into_termination();
    assert_eq!(request.id, id);
    assert_eq!(request.query, "q");
    assert_eq!(request.result_tx.send(Ok(())), Ok(()));
    assert_eq!(result_rx.try_recv(), Polled::Ready(Ok(())));
}

#[test]
fn cloned_termination_request_answers_on_the_same_channel() {
    let id = SubscriptionId::default();
    let (result_tx, mut result_rx) = unbounded();
    let request = TerminateSubscription { id: id.clone(), query: "q".to_string(), result_tx };
    let mut copy = request.clone();
    assert_eq!(copy.id, id);
    assert_eq!(copy.query, "q");
    drop(request);
    assert_eq!(copy.result_tx.send(Ok(())), Ok(()));
    assert_eq!(result_rx.try_recv(), Polled::Ready(Ok(())));
}

#[test]
fn many_subscriptions_share_one_control_channel() {
    let (terminate_tx, mut terminate_rx) = unbounded::<TerminateSubscription>();
    let mut ids = Vec::new();
    for _ in 0..3 {
        let id = SubscriptionId::default();
        let (_event_tx, event_rx) = unbounded();
        let subs = Subscription::new(id.clone(), "q".to_string(), event_rx, terminate_tx.clone());
        assert!(subs.request_termination().is_ok());
        ids.push(id);
    }
    for id in ids {
        match terminate_rx.try_recv() {
            Polled::Ready(request) => assert_eq!(request.id, id),
            _ => panic!("a termination request is missing"),
        }
    }
    assert!(matches!(terminate_rx.try_recv(), Polled::Pending));
}
