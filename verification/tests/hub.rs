use websocket_relay::hub::{Delivery, Hub, SubscriberId, DEFAULT_CAPACITY};
use websocket_relay::queue::DeliveryQueue;

fn drain(hub: &mut Hub, id: SubscriberId) -> Vec<String> {
    let mut out = Vec::new();
    loop {
        match hub.receive(id) {
            Delivery::Message(m) => out.push(m),
            _ => return out,
        }
    }
}

#[test]
fn two_subscribers_second_joins_late() {
    let mut hub = Hub::new(DEFAULT_CAPACITY);
    let s1 = hub.subscribe().unwrap();
    assert!(hub.publish("a"));
    assert!(hub.publish("b"));
    let s2 = hub.subscribe().unwrap();
    assert!(hub.publish("c"));
    assert_eq!(drain(&mut hub, s1), vec!["a", "b", "c"]);
    assert_eq!(drain(&mut hub, s2), vec!["c"]);
}

#[test]
fn message_arrives_unaltered() {
    let mut hub = Hub::new(DEFAULT_CAPACITY);
    let s = hub.subscribe().unwrap();
    hub.publish("hello world");
    assert_eq!(hub.receive(s), Delivery::Message("hello world".to_string()));
    assert_eq!(hub.receive(s), Delivery::Idle);
}

#[test]
fn non_ascii_text_arrives_unaltered() {
    let mut hub = Hub::new(4);
    let s = hub.subscribe().unwrap();
    let text = "gr\u{fc}\u{df} dich, \u{4e16}\u{754c} \u{1f600}\n\t";
    hub.publish(text);
    hub.publish("");
    assert_eq!(hub.receive(s), Delivery::Message(text.to_string()));
    assert_eq!(hub.receive(s), Delivery::Message(String::new()));
}

#[test]
fn every_subscriber_receives_every_message_in_order() {
    let mut hub = Hub::new(100);
    let ids: Vec<SubscriberId> = (0..5).map(|_| hub.subscribe().unwrap()).collect();
    let messages: Vec<String> = (0..100).map(|i| format!("message {}", i)).collect();
    for m in &messages {
        assert!(hub.publish(m));
    }
    for id in ids {
        assert_eq!(hub.pending(id), Some(100));
        assert_eq!(drain(&mut hub, id), messages);
    }
}

#[test]
fn late_subscriber_sees_nothing_earlier() {
    let mut hub = Hub::new(10);
    hub.publish("lost: nobody was subscribed");
    let early = hub.subscribe().unwrap();
    hub.publish("m1");
    hub.publish("m2");
    let late = hub.subscribe().unwrap();
    assert_eq!(hub.pending(late), Some(0));
    assert_eq!(hub.receive(late), Delivery::Idle);
    hub.publish("m3");
    hub.publish("m4");
    assert_eq!(drain(&mut hub, late), vec!["m3", "m4"]);
    assert_eq!(drain(&mut hub, early), vec!["m1", "m2", "m3", "m4"]);
}

#[test]
fn dropping_one_subscriber_leaves_the_others_alone() {
    let mut hub = Hub::new(10);
    let a = hub.subscribe().unwrap();
    let b = hub.subscribe().unwrap();
    let c = hub.subscribe().unwrap();
    hub.publish("1");
    assert!(hub.unsubscribe(b));
    assert!(!hub.is_subscribed(b));
    hub.publish("2");
    hub.publish("3");
    assert_eq!(hub.receive(b), Delivery::Closed);
    assert_eq!(drain(&mut hub, a), vec!["1", "2", "3"]);
    assert_eq!(drain(&mut hub, c), vec!["1", "2", "3"]);
    assert!(!hub.unsubscribe(b));
}

#[test]
fn overflow_keeps_the_most_recent_messages() {
    let capacity = 8;
    let extra = 5;
    let mut hub = Hub::new(capacity);
    let slow = hub.subscribe().unwrap();
    let messages: Vec<String> = (0..capacity + extra).map(|i| format!("m{}", i)).collect();
    for m in &messages {
        assert!(hub.publish(m));
    }
    assert_eq!(hub.pending(slow), Some(capacity));
    assert_eq!(drain(&mut hub, slow), messages[extra..].to_vec());
}

#[test]
fn overflow_of_one_subscriber_does_not_touch_a_fast_one() {
    let mut hub = Hub::new(2);
    let slow = hub.subscribe().unwrap();
    let fast = hub.subscribe().unwrap();
    let mut seen = Vec::new();
    for m in ["a", "b", "c", "d"] {
        hub.publish(m);
        seen.extend(drain(&mut hub, fast));
    }
    assert_eq!(seen, vec!["a", "b", "c", "d"]);
    assert_eq!(drain(&mut hub, slow), vec!["c", "d"]);
}

#[test]
fn handles_are_the_smallest_free_and_are_reused() {
    let mut hub = Hub::new(3);
    let a = hub.subscribe().unwrap();
    let b = hub.subscribe().unwrap();
    let c = hub.subscribe().unwrap();
    assert_eq!((a.slot, b.slot, c.slot), (0, 1, 2));
    hub.publish("old");
    assert!(hub.unsubscribe(b));
    let d = hub.subscribe().unwrap();
    assert_eq!(d, b);
    assert_eq!(hub.receive(d), Delivery::Idle);
    let e = hub.subscribe().unwrap();
    assert_eq!(e.slot, 3);
}

#[test]
fn unknown_handle_is_closed() {
    let mut hub = Hub::new(3);
    let stranger = SubscriberId { slot: 7 };
    assert!(!hub.is_subscribed(stranger));
    assert_eq!(hub.pending(stranger), None);
    assert_eq!(hub.receive(stranger), Delivery::Closed);
    assert!(!hub.unsubscribe(stranger));
}

#[test]
fn closed_hub_accepts_nothing_and_holds_nothing() {
    let mut hub = Hub::new(3);
    let s = hub.subscribe().unwrap();
    hub.publish("waiting");
    assert!(hub.is_live());
    hub.close();
    assert!(!hub.is_live());
    assert_eq!(hub.capacity(), 3);
    assert_eq!(hub.receive(s), Delivery::Closed);
    assert!(!hub.publish("late"));
    assert_eq!(hub.subscribe(), None);
    assert_eq!(hub.receive(s), Delivery::Closed);
}

#[test]
fn hub_of_capacity_zero_retains_nothing() {
    let mut hub = Hub::new(0);
    let s = hub.subscribe().unwrap();
    assert!(hub.publish("a"));
    assert_eq!(hub.pending(s), Some(0));
    assert_eq!(hub.receive(s), Delivery::Idle);
}

#[test]
fn default_capacity_is_999() {
    assert_eq!(DEFAULT_CAPACITY, 999);
    let mut hub = Hub::new(DEFAULT_CAPACITY);
    let s = hub.subscribe().unwrap();
    for i in 0..1000 {
        hub.publish(&i.to_string());
    }
    assert_eq!(hub.pending(s), Some(999));
    assert_eq!(hub.receive(s), Delivery::Message("1".to_string()));
}

#[test]
fn queue_is_first_in_first_out() {
    let mut q = DeliveryQueue::new(3);
    assert!(q.is_empty());
    assert_eq!(q.capacity(), 3);
    q.push("a".to_string());
    q.push("b".to_string());
    assert_eq!(q.len(), 2);
    assert_eq!(q.pop(), Some("a".to_string()));
    q.push("c".to_string());
    assert_eq!(q.pop(), Some("b".to_string()));
    assert_eq!(q.pop(), Some("c".to_string()));
    assert_eq!(q.pop(), None);
    assert!(q.is_empty());
}

#[test]
fn full_queue_drops_its_oldest() {
    let mut q = DeliveryQueue::new(2);
    q.push("a".to_string());
    q.push("b".to_string());
    q.push("c".to_string());
    assert_eq!(q.len(), 2);
    assert_eq!(q.pop(), Some("b".to_string()));
    assert_eq!(q.pop(), Some("c".to_string()));
    assert_eq!(q.pop(), None);
}

#[test]
fn queue_of_capacity_zero_stays_empty() {
    let mut q = DeliveryQueue::new(0);
    q.push("a".to_string());
    assert_eq!(q.len(), 0);
    assert_eq!(q.pop(), None);
}

#[test]
fn interleaved_delivery_skips_but_never_reorders_or_repeats() {
    let mut hub = Hub::new(3);
    let s = hub.subscribe().unwrap();
    let mut next = 0;
    let mut received: Vec<usize> = Vec::new();
    // Publish in bursts of growing size, taking two messages after each.
    for burst in 1..=6 {
        for _ in 0..burst {
            hub.publish(&next.to_string());
            next += 1;
        }
        for _ in 0..2 {
            if let Delivery::Message(m) = hub.receive(s) {
                received.push(m.parse().unwrap());
            }
        }
    }
    assert_eq!(received, vec![0, 1, 2, 3, 4, 7, 8, 12, 13, 18, 19]);
    assert!(received.windows(2).all(|w| w[0] < w[1]));
    assert_eq!(drain(&mut hub, s), vec!["20"]);
}
