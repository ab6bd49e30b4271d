use kitbash_watch::debounce::{DebounceEngine, Observation, RawNotification};
use kitbash_watch::event::{Existence, FileChangeEvent, RawKind};
use kitbash_watch::hub::{Delivery, Hub, SUBSCRIBER_BUFFER};
use kitbash_watch::pipeline::relay;
use tokio::sync::broadcast::error::TryRecvError;

fn added(name: &str) -> FileChangeEvent {
    FileChangeEvent::Added { filename: name.to_string() }
}

fn numbered(n: usize) -> FileChangeEvent {
    FileChangeEvent::Modified { filename: format!("{n}.obj") }
}

#[test]
fn buffer_holds_one_hundred_events() {
    assert_eq!(SUBSCRIBER_BUFFER, 100);
}

#[test]
fn publish_without_subscribers_returns_at_once() {
    let mut hub = Hub::new();
    assert_eq!(hub.subscriber_count(), 0);
    assert_eq!(hub.publish(added("a.obj")), 0);
}

#[test]
fn every_subscriber_sees_a_published_event() {
    let mut hub = Hub::new();
    let mut subscribers: Vec<_> = (0..5).map(|_| hub.subscribe()).collect();
    assert_eq!(hub.subscriber_count(), 5);
    assert_eq!(hub.publish(added("a.obj")), 5);
    for subscriber in subscribers.iter_mut() {
        assert_eq!(hub.poll(subscriber), Delivery::Event(added("a.obj")));
        assert_eq!(hub.poll(subscriber), Delivery::Empty);
    }
}

#[test]
fn late_subscriber_sees_nothing_published_before() {
    let mut hub = Hub::new();
    let mut early = hub.subscribe();
    hub.publish(added("a.obj"));
    let mut late = hub.subscribe();
    assert_eq!(hub.poll(&mut late), Delivery::Empty);
    assert_eq!(hub.poll(&mut early), Delivery::Event(added("a.obj")));
}

#[test]
fn two_subscribers_both_get_the_later_event_and_not_the_earlier() {
    let mut hub = Hub::new();
    // published before anyone connected
    hub.publish(added("early.obj"));
    let mut s1 = hub.subscribe();
    let mut s2 = hub.subscribe();
    assert_eq!(hub.publish(added("late.obj")), 2);
    assert_eq!(hub.poll(&mut s1), Delivery::Event(added("late.obj")));
    assert_eq!(hub.poll(&mut s1), Delivery::Empty);
    assert_eq!(hub.poll(&mut s2), Delivery::Event(added("late.obj")));
    assert_eq!(hub.poll(&mut s2), Delivery::Empty);
}

#[test]
fn events_arrive_in_order_of_publication() {
    let mut hub = Hub::new();
    let mut subscriber = hub.subscribe();
    for n in 0..SUBSCRIBER_BUFFER {
        hub.publish(numbered(n));
    }
    for n in 0..SUBSCRIBER_BUFFER {
        assert_eq!(hub.poll(&mut subscriber), Delivery::Event(numbered(n)));
    }
    assert_eq!(hub.poll(&mut subscriber), Delivery::Empty);
}

#[test]
fn stalled_subscriber_does_not_hold_up_the_others() {
    let mut hub = Hub::new();
    let mut stalled = hub.subscribe();
    let mut keen = hub.subscribe();
    let total = 1000;
    for n in 0..total {
        assert_eq!(hub.publish(numbered(n)), 2);
        assert_eq!(hub.poll(&mut keen), Delivery::Event(numbered(n)));
    }
    assert_eq!(hub.poll(&mut keen), Delivery::Empty);
    // the stalled one has lost events, and only it
    match hub.poll(&mut stalled) {
        Delivery::Lagged(missed) => {
            assert!(missed > 0);
            assert!(missed as usize <= total - SUBSCRIBER_BUFFER);
            assert_eq!(hub.poll(&mut stalled), Delivery::Event(numbered(missed as usize)));
        }
        other => panic!("expected a lag, got {:?}", other),
    }
}

#[test]
fn subscriber_within_the_buffer_loses_nothing() {
    let mut hub = Hub::new();
    let mut slow = hub.subscribe();
    for n in 0..SUBSCRIBER_BUFFER {
        hub.publish(numbered(n));
    }
    assert_eq!(hub.poll(&mut slow), Delivery::Event(numbered(0)));
}

#[test]
fn dropping_a_subscriber_unsubscribes_it() {
    let mut hub = Hub::new();
    let first = hub.subscribe();
    let second = hub.subscribe();
    assert_eq!(hub.subscriber_count(), 2);
    drop(first);
    assert_eq!(hub.subscriber_count(), 1);
    assert_eq!(hub.publish(added("a.obj")), 1);
    drop(second);
    assert_eq!(hub.subscriber_count(), 0);
    assert_eq!(hub.publish(added("a.obj")), 0);
}

#[test]
fn subscriber_learns_that_the_hub_is_gone() {
    let mut hub = Hub::new();
    let subscriber = hub.subscribe();
    hub.publish(added("a.obj"));
    drop(hub);
    let mut receiver = subscriber.into_receiver();
    assert_eq!(receiver.try_recv(), Ok(added("a.obj")));
    assert_eq!(receiver.try_recv(), Err(TryRecvError::Closed));
}

#[test]
fn lag_is_counted_from_the_oldest_retained_event() {
    let mut hub = Hub::new();
    let mut stalled = hub.subscribe();
    let total = 1000;
    for n in 0..total {
        hub.publish(numbered(n));
    }
    // the channel retains its capacity rounded up to a power of two
    let retained = SUBSCRIBER_BUFFER.next_power_of_two();
    assert_eq!(hub.poll(&mut stalled), Delivery::Lagged((total - retained) as u64));
    for n in (total - retained)..total {
        assert_eq!(hub.poll(&mut stalled), Delivery::Event(numbered(n)));
    }
    assert_eq!(hub.poll(&mut stalled), Delivery::Empty);
}

#[test]
fn subscriber_exactly_at_the_limit_loses_nothing() {
    let mut hub = Hub::new();
    let mut slow = hub.subscribe();
    let retained = SUBSCRIBER_BUFFER.next_power_of_two();
    for n in 0..retained {
        hub.publish(numbered(n));
    }
    assert_eq!(hub.poll(&mut slow), Delivery::Event(numbered(0)));
    let mut slower = hub.subscribe();
    for n in 0..=retained {
        hub.publish(numbered(n));
    }
    assert_eq!(hub.poll(&mut slower), Delivery::Lagged(1));
    assert_eq!(hub.poll(&mut slower), Delivery::Event(numbered(1)));
}

#[test]
fn subscriber_of_another_hub_is_unaffected() {
    let mut one = Hub::new();
    let mut other = Hub::new();
    let mut of_one = one.subscribe();
    let mut of_other = other.subscribe();
    one.publish(added("a.obj"));
    assert_eq!(other.poll(&mut of_other), Delivery::Empty);
    assert_eq!(one.poll(&mut of_one), Delivery::Event(added("a.obj")));
    other.publish(added("b.obj"));
    assert_eq!(one.poll(&mut of_one), Delivery::Empty);
    assert_eq!(other.poll(&mut of_other), Delivery::Event(added("b.obj")));
}

#[test]
fn relay_publishes_what_the_engine_emits() {
    let mut hub = Hub::new();
    let mut engine = DebounceEngine::new(".obj".to_string());
    let mut subscriber = hub.subscribe();
    let seen = |name: &str, kind: RawKind, exists: bool, at: u64| Observation {
        notification: RawNotification { filename: Some(name.to_string()), kind },
        existence: if exists { Existence::Present } else { Existence::Absent },
        at,
    };
    assert_eq!(
        relay(&mut engine, &mut hub, &seen("a.obj", RawKind::Create, true, 0)),
        Some(added("a.obj"))
    );
    assert_eq!(relay(&mut engine, &mut hub, &seen("a.obj", RawKind::Create, true, 1)), None);
    assert_eq!(relay(&mut engine, &mut hub, &seen("notes.txt", RawKind::Create, true, 2)), None);
    assert_eq!(
        relay(&mut engine, &mut hub, &seen("a.obj", RawKind::Modify, false, 3)),
        Some(FileChangeEvent::Removed { filename: "a.obj".to_string() })
    );
    assert_eq!(hub.poll(&mut subscriber), Delivery::Event(added("a.obj")));
    assert_eq!(
        hub.poll(&mut subscriber),
        Delivery::Event(FileChangeEvent::Removed { filename: "a.obj".to_string() })
    );
    assert_eq!(hub.poll(&mut subscriber), Delivery::Empty);
}

#[test]
fn relay_without_subscribers_still_records() {
    let mut hub = Hub::new();
    let mut engine = DebounceEngine::new(".obj".to_string());
    let observation = Observation {
        notification: RawNotification { filename: Some("a.obj".to_string()), kind: RawKind::Create },
        existence: Existence::Present,
        at: 0,
    };
    assert_eq!(relay(&mut engine, &mut hub, &observation), Some(added("a.obj")));
    assert!(engine.record("a.obj").is_some());
    assert_eq!(relay(&mut engine, &mut hub, &observation), None);
}
