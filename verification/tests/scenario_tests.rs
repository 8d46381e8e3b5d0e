//! End-to-end scenarios: the watcher filter feeding the broadcast hub, as
//! the serving layer wires them together.

use docwatch::event::{ChangeKind, RawEvent, RawEventKind};
use docwatch::hub::BroadcastHub;
use docwatch::watcher::{classify, WatchTarget};

fn overwrite_event(path: &str) -> RawEvent {
    RawEvent { kind: RawEventKind::DataModified, paths: vec![path.to_string()] }
}

#[test]
fn overwrite_notifies_both_clients_once() {
    let t = WatchTarget::new("/tmp/doc.pdf").unwrap();
    let mut hub = BroadcastHub::new(8);
    let a = hub.subscribe();
    let b = hub.subscribe();

    let change = classify(&overwrite_event("/tmp/doc.pdf"), &t, 100).unwrap();
    hub.publish(change);

    for id in [a, b] {
        let got = hub.recv(id).unwrap();
        assert_eq!(got.kind, ChangeKind::DataModified);
        assert_eq!(got.occurred_at, 100);
        assert_eq!(hub.recv(id), None);
    }
}

#[test]
fn two_saves_arrive_in_publish_order() {
    let t = WatchTarget::new("/tmp/doc.pdf").unwrap();
    let mut hub = BroadcastHub::new(8);
    let a = hub.subscribe();

    for ts in [1, 2] {
        let change = classify(&overwrite_event("/tmp/doc.pdf"), &t, ts).unwrap();
        hub.publish(change);
    }
    assert_eq!(hub.recv(a).unwrap().occurred_at, 1);
    assert_eq!(hub.recv(a).unwrap().occurred_at, 2);
    assert_eq!(hub.recv(a), None);
}

#[test]
fn unsubscribed_client_misses_later_overwrite() {
    let t = WatchTarget::new("/tmp/doc.pdf").unwrap();
    let mut hub = BroadcastHub::new(8);
    let a = hub.subscribe();
    hub.unsubscribe(a);

    let change = classify(&overwrite_event("/tmp/doc.pdf"), &t, 5).unwrap();
    hub.publish(change);
    assert_eq!(hub.recv(a), None);
}

#[test]
fn unrelated_activity_in_watched_dir_is_silent() {
    let t = WatchTarget::new("/tmp/doc.pdf").unwrap();
    let mut hub = BroadcastHub::new(8);
    let a = hub.subscribe();

    let noise = [
        RawEvent { kind: RawEventKind::DataModified, paths: vec!["/tmp/notes.txt".to_string()] },
        RawEvent { kind: RawEventKind::MetadataModified, paths: vec!["/tmp/doc.pdf".to_string()] },
        RawEvent { kind: RawEventKind::Created, paths: vec!["/tmp/doc.pdf".to_string()] },
    ];
    for e in noise {
        if let Some(change) = classify(&e, &t, 1) {
            hub.publish(change);
        }
    }
    assert_eq!(hub.recv(a), None);
}
