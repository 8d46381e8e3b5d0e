use docwatch::event::{ChangeEvent, ChangeKind};
use docwatch::hub::BroadcastHub;

fn ev(ts: u64) -> ChangeEvent {
    ChangeEvent { kind: ChangeKind::DataModified, occurred_at: ts }
}

#[test]
fn subscribe_yields_distinct_ids() {
    let mut hub = BroadcastHub::new(8);
    let a = hub.subscribe();
    let b = hub.subscribe();
    let c = hub.subscribe();
    assert_ne!(a, b);
    assert_ne!(a, c);
    assert_ne!(b, c);
    assert_eq!(hub.subscriber_count(), 3);
}

#[test]
fn publish_delivers_to_all_in_fifo_order() {
    let mut hub = BroadcastHub::new(8);
    let a = hub.subscribe();
    let b = hub.subscribe();
    hub.publish(ev(1));
    hub.publish(ev(2));
    for id in [a, b] {
        assert_eq!(hub.recv(id), Some(ev(1)));
        assert_eq!(hub.recv(id), Some(ev(2)));
        assert_eq!(hub.recv(id), None);
    }
}

#[test]
fn unsubscribed_receives_nothing() {
    let mut hub = BroadcastHub::new(8);
    let a = hub.subscribe();
    let removed = hub.unsubscribe(a);
    assert!(removed);
    hub.publish(ev(1));
    assert_eq!(hub.recv(a), None);
    assert_eq!(hub.subscriber_count(), 0);
}

#[test]
fn unsubscribe_absent_is_no_op() {
    let mut hub = BroadcastHub::new(8);
    let a = hub.subscribe();
    assert!(hub.unsubscribe(a));
    assert!(!hub.unsubscribe(a));
    assert!(!hub.unsubscribe(12345));
    assert_eq!(hub.subscriber_count(), 0);
}

#[test]
fn unsubscribe_leaves_others_untouched() {
    let mut hub = BroadcastHub::new(8);
    let a = hub.subscribe();
    let b = hub.subscribe();
    hub.publish(ev(1));
    hub.unsubscribe(a);
    hub.publish(ev(2));
    assert_eq!(hub.recv(a), None);
    assert_eq!(hub.recv(b), Some(ev(1)));
    assert_eq!(hub.recv(b), Some(ev(2)));
    assert_eq!(hub.recv(b), None);
}

#[test]
fn full_queue_drops_event_for_that_subscriber_only() {
    let mut hub = BroadcastHub::new(2);
    let slow = hub.subscribe();
    let fast = hub.subscribe();
    hub.publish(ev(1));
    hub.publish(ev(2));
    // The fast subscriber drains; the slow one's queue is now full.
    assert_eq!(hub.recv(fast), Some(ev(1)));
    assert_eq!(hub.recv(fast), Some(ev(2)));
    hub.publish(ev(3));
    // Dropped for the slow subscriber, delivered to the fast one.
    assert_eq!(hub.recv(slow), Some(ev(1)));
    assert_eq!(hub.recv(slow), Some(ev(2)));
    assert_eq!(hub.recv(slow), None);
    assert_eq!(hub.recv(fast), Some(ev(3)));
    assert_eq!(hub.recv(fast), None);
}

#[test]
fn recv_unknown_id_is_none() {
    let mut hub = BroadcastHub::new(4);
    assert_eq!(hub.recv(0), None);
}

#[test]
fn ids_are_not_reused_after_unsubscribe() {
    let mut hub = BroadcastHub::new(4);
    let a = hub.subscribe();
    hub.unsubscribe(a);
    let b = hub.subscribe();
    assert_ne!(a, b);
}
