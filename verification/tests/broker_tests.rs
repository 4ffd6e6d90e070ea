use logline::broker::{
    channels_intersect, heartbeat_due, EventBroker, Polled, DEFAULT_HEARTBEAT_MS,
    DEFAULT_QUEUE_CAPACITY, DEFAULT_RETENTION,
};
use logline::events::{Event, EventKind};

fn on(channels: &[&str], id: &str) -> Event {
    Event::new(EventKind::IdeaRegistered { id: id.to_string() })
        .with_channels(channels.iter().map(|c| c.to_string()).collect())
}

fn name(polled: Polled) -> (u128, String) {
    match polled {
        Polled::Event(event) => match event.kind {
            EventKind::IdeaRegistered { id } => (event.id, id),
            _ => panic!("wrong kind"),
        },
        other => panic!("no event: {:?}", other),
    }
}

fn chans(list: &[&str]) -> Vec<String> {
    list.iter().map(|c| c.to_string()).collect()
}

#[test]
fn test_defaults() {
    assert_eq!(DEFAULT_RETENTION, 1000);
    assert_eq!(DEFAULT_QUEUE_CAPACITY, 256);
    assert_eq!(DEFAULT_HEARTBEAT_MS, 30000);
    assert!(heartbeat_due(30000, DEFAULT_HEARTBEAT_MS));
    assert!(!heartbeat_due(29999, DEFAULT_HEARTBEAT_MS));
}

#[test]
fn test_broker_delivery() {
    let mut broker = EventBroker::new(10, 10);
    broker.publish(on(&["a"], "before")).unwrap();
    let a = broker.subscribe(chans(&["a"]), None).unwrap();
    let ab = broker.subscribe(chans(&["b", "a"]), None).unwrap();
    let c = broker.subscribe(chans(&["c"]), None).unwrap();
    assert_eq!(broker.publish(on(&["a"], "e1")).unwrap(), 2);
    assert_eq!(broker.publish(on(&["b", "x"], "e2")).unwrap(), 3);
    assert_eq!(broker.publish(on(&["x"], "e3")).unwrap(), 4);
    assert_eq!(broker.publish(on(&["a", "b"], "e4")).unwrap(), 5);
    assert_eq!(name(broker.poll(a)), (2, "e1".to_string()));
    assert_eq!(name(broker.poll(a)), (5, "e4".to_string()));
    assert!(matches!(broker.poll(a), Polled::Idle));
    assert_eq!(name(broker.poll(ab)), (2, "e1".to_string()));
    assert_eq!(name(broker.poll(ab)), (3, "e2".to_string()));
    assert_eq!(name(broker.poll(ab)), (5, "e4".to_string()));
    assert!(matches!(broker.poll(ab), Polled::Idle));
    assert!(matches!(broker.poll(c), Polled::Idle));
    assert!(matches!(broker.poll(999), Polled::Unknown));
}

#[test]
fn test_two_subscribers_see_the_same_order() {
    let mut broker = EventBroker::new(DEFAULT_RETENTION, DEFAULT_QUEUE_CAPACITY);
    let first = broker.subscribe(chans(&["commands"]), None).unwrap();
    let second = broker.subscribe(chans(&["commands"]), None).unwrap();
    broker.publish(on(&["commands", "default"], "a")).unwrap();
    broker.publish(on(&["commands", "default"], "b")).unwrap();
    for subscriber in [first, second] {
        let (id_a, a) = name(broker.poll(subscriber));
        let (id_b, b) = name(broker.poll(subscriber));
        assert_eq!(a, "a");
        assert_eq!(b, "b");
        assert!(id_a < id_b);
    }
}

#[test]
fn test_replay_after_last_event_id() {
    let mut broker = EventBroker::new(3, 10);
    for i in 1..=5 {
        broker.publish(on(&["a"], &format!("e{}", i))).unwrap();
    }
    let resumed = broker.subscribe(chans(&["a"]), Some(4)).unwrap();
    assert_eq!(name(broker.poll(resumed)), (5, "e5".to_string()));
    assert!(matches!(broker.poll(resumed), Polled::Idle));
    let from_oldest = broker.subscribe(chans(&["a"]), Some(3)).unwrap();
    assert_eq!(name(broker.poll(from_oldest)), (4, "e4".to_string()));
    assert_eq!(name(broker.poll(from_oldest)), (5, "e5".to_string()));
    let too_old = broker.subscribe(chans(&["a"]), Some(2)).unwrap();
    assert!(matches!(broker.poll(too_old), Polled::Idle));
    let newest = broker.subscribe(chans(&["a"]), Some(5)).unwrap();
    assert!(matches!(broker.poll(newest), Polled::Idle));
    let unknown = broker.subscribe(chans(&["a"]), Some(77)).unwrap();
    assert!(matches!(broker.poll(unknown), Polled::Idle));
    let other_channel = broker.subscribe(chans(&["b"]), Some(3)).unwrap();
    assert!(matches!(broker.poll(other_channel), Polled::Idle));
    broker.publish(on(&["a"], "e6")).unwrap();
    assert_eq!(name(broker.poll(too_old)), (6, "e6".to_string()));
    assert_eq!(name(broker.poll(newest)), (6, "e6".to_string()));
}

#[test]
fn test_retention_is_a_ring() {
    let mut broker = EventBroker::new(2, 10);
    for i in 1..=4 {
        broker.publish(on(&["a"], &format!("e{}", i))).unwrap();
    }
    assert_eq!(broker.retained.len(), 2);
    assert_eq!(broker.retained[0].id, 3);
    assert_eq!(broker.retained[1].id, 4);
    assert!(broker.is_retained(3));
    assert!(!broker.is_retained(2));
    let mut none = EventBroker::new(0, 10);
    none.publish(on(&["a"], "e")).unwrap();
    assert_eq!(none.retained.len(), 0);
}

#[test]
fn test_queue_overflow_drops_oldest_and_disconnects() {
    let mut broker = EventBroker::new(10, 2);
    let slow = broker.subscribe(chans(&["a"]), None).unwrap();
    let fast = broker.subscribe(chans(&["a"]), None).unwrap();
    broker.publish(on(&["a"], "e1")).unwrap();
    broker.publish(on(&["a"], "e2")).unwrap();
    assert_eq!(name(broker.poll(fast)), (1, "e1".to_string()));
    assert_eq!(name(broker.poll(fast)), (2, "e2".to_string()));
    broker.publish(on(&["a"], "e3")).unwrap();
    assert_eq!(broker.subscribers[0].queue.len(), 2);
    assert_eq!(broker.subscribers[0].queue[0].id, 2);
    assert_eq!(broker.subscribers[0].queue[1].id, 3);
    assert!(broker.subscribers[0].overflowed);
    assert!(!broker.subscribers[1].overflowed);
    assert!(matches!(broker.poll(slow), Polled::Overflow));
    assert!(matches!(broker.poll(slow), Polled::Unknown));
    assert_eq!(name(broker.poll(fast)), (3, "e3".to_string()));
    assert_eq!(broker.subscribers[0].last_delivered_id, 3);
}

#[test]
fn test_unsubscribe() {
    let mut broker = EventBroker::new(10, 10);
    let one = broker.subscribe(chans(&["a"]), None).unwrap();
    let two = broker.subscribe(chans(&["a"]), None).unwrap();
    assert_ne!(one, two);
    assert!(broker.unsubscribe(one));
    assert!(!broker.unsubscribe(one));
    broker.publish(on(&["a"], "e")).unwrap();
    assert!(matches!(broker.poll(one), Polled::Unknown));
    assert_eq!(name(broker.poll(two)), (1, "e".to_string()));
}

#[test]
fn test_broker_exhaustion() {
    let mut broker = EventBroker::new(10, 10);
    broker.next_id = u128::MAX;
    assert!(broker.publish(on(&["a"], "e")).is_err());
    assert_eq!(broker.retained.len(), 0);
    broker.next_subscriber = u64::MAX;
    assert!(broker.subscribe(chans(&["a"]), None).is_err());
}

#[test]
fn test_channels_intersect() {
    assert!(channels_intersect(&chans(&["a", "b"]), &chans(&["c", "b"])));
    assert!(!channels_intersect(&chans(&["a", "b"]), &chans(&["c"])));
    assert!(!channels_intersect(&chans(&[]), &chans(&["c"])));
    assert!(!channels_intersect(&chans(&["c"]), &chans(&[])));
}
