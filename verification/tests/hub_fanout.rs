use flv_relay::broadcast::Broadcaster;
use flv_relay::hub::{RecvOutcome, StreamHub};
use flv_relay::tag::{Tag, TagKind};

fn container_header(flags: u8) -> Vec<u8> {
    vec![0x46, 0x4c, 0x56, 0x01, flags, 0x00, 0x00, 0x00, 0x09, 0x00, 0x00, 0x00, 0x00]
}

fn tag_bytes(kind: u8, payload: &[u8]) -> Vec<u8> {
    let n = payload.len();
    let mut out = vec![
        kind,
        ((n >> 16) & 0xff) as u8,
        ((n >> 8) & 0xff) as u8,
        (n & 0xff) as u8,
        0,
        0,
        0,
        0,
        0,
        0,
        0,
    ];
    out.extend_from_slice(payload);
    let total = 11 + n as u32;
    out.extend_from_slice(&total.to_be_bytes());
    out
}

fn make_tag(kind_byte: u8, payload: &[u8]) -> Tag {
    let bytes = tag_bytes(kind_byte, payload);
    let kind = match kind_byte {
        8 => TagKind::Audio,
        9 => TagKind::Video,
        18 => TagKind::Script,
        _ => TagKind::Unknown,
    };
    Tag { kind, payload_size: payload.len(), bytes }
}

#[test]
fn broadcaster_delivers_in_publish_order() {
    let mut b = Broadcaster::new(8);
    let c = b.subscribe();
    b.publish(&vec![1]);
    b.publish(&vec![2]);
    b.publish(&vec![3]);
    assert_eq!(b.pop(c), Some(vec![1]));
    assert_eq!(b.pop(c), Some(vec![2]));
    assert_eq!(b.pop(c), Some(vec![3]));
    assert_eq!(b.pop(c), None);
}

#[test]
fn broadcaster_cursor_sees_only_later_items() {
    let mut b = Broadcaster::new(8);
    b.publish(&vec![1]);
    let c = b.subscribe();
    b.publish(&vec![2]);
    assert_eq!(b.pop(c), Some(vec![2]));
    assert_eq!(b.pop(c), None);
}

#[test]
fn broadcaster_drops_oldest_when_lagging() {
    let mut b = Broadcaster::new(2);
    let slow = b.subscribe();
    let fast = b.subscribe();
    b.publish(&vec![1]);
    b.publish(&vec![2]);
    // fast keeps up
    assert_eq!(b.pop(fast), Some(vec![1]));
    assert_eq!(b.pop(fast), Some(vec![2]));
    // slow overflows: the oldest is dropped for it alone
    b.publish(&vec![3]);
    assert_eq!(b.pop(fast), Some(vec![3]));
    assert_eq!(b.pop(slow), Some(vec![2]));
    assert_eq!(b.pop(slow), Some(vec![3]));
    assert_eq!(b.pop(slow), None);
}

#[test]
fn broadcaster_unsubscribe_detaches_cursor() {
    let mut b = Broadcaster::new(4);
    let c = b.subscribe();
    b.publish(&vec![1]);
    b.unsubscribe(c);
    assert!(!b.cursor_active(c));
    assert_eq!(b.cursor_count(), 1);
    assert_eq!(b.capacity(), 4);
}

// The relay scenario end to end through the hub: header with audio and
// video claimed, one audio tag, one configuration record, one data
// tag.  The subscriber sees the adjusted header, the configuration
// record and the data tag, nothing else.
#[test]
fn hub_subscriber_stream_has_no_audio() {
    let name = String::from("room");
    let mut hub = StreamHub::new(16);
    let sid = hub.start_publish(&name);
    let ticket = hub.subscribe(&name);
    assert_eq!(ticket.stream_id, sid);

    assert!(hub.publish_header(sid, &container_header(0x05), true));
    assert!(!hub.publish_tag(sid, make_tag(8, &[0xaf, 0x00])));
    assert!(hub.publish_tag(sid, make_tag(9, &[0x17, 0x00, 0x01])));
    assert!(hub.publish_tag(sid, make_tag(9, &[0x27, 0x01, 0x02])));

    let mut got = Vec::new();
    loop {
        match hub.recv(sid, ticket.cursor) {
            RecvOutcome::Item(x) => got.push(x),
            RecvOutcome::Empty => break,
            RecvOutcome::Closed => panic!("stream closed early"),
        }
    }
    assert_eq!(got.len(), 3);
    assert_eq!(got[0], container_header(0x04));
    assert_eq!(got[1], tag_bytes(9, &[0x17, 0x00, 0x01]));
    assert_eq!(got[2], tag_bytes(9, &[0x27, 0x01, 0x02]));
    for item in got.iter() {
        assert_ne!(item[0], 8, "an audio tag reached a subscriber");
    }
}

// A subscriber connecting before any publisher gets an open, empty
// subscription, then sees whatever the eventual publisher sends from
// the moment the header is available.
#[test]
fn hub_subscriber_before_publisher() {
    let name = String::from("early");
    let mut hub = StreamHub::new(16);
    let ticket = hub.subscribe(&name);
    assert!(ticket.header.is_none());
    assert!(ticket.config.is_none());
    assert!(matches!(hub.recv(ticket.stream_id, ticket.cursor), RecvOutcome::Empty));

    let sid = hub.start_publish(&name);
    assert_eq!(sid, ticket.stream_id);
    assert!(hub.publish_header(sid, &container_header(0x04), true));
    assert!(hub.publish_tag(sid, make_tag(9, &[0x27, 0x01])));

    match hub.recv(sid, ticket.cursor) {
        RecvOutcome::Item(x) => assert_eq!(x, container_header(0x04)),
        _ => panic!("expected the header"),
    }
    match hub.recv(sid, ticket.cursor) {
        RecvOutcome::Item(x) => assert_eq!(x, tag_bytes(9, &[0x27, 0x01])),
        _ => panic!("expected the tag"),
    }
}

// A late joiner receives the cached header and only the most recent of
// the configuration records published before it joined.
#[test]
fn hub_late_joiner_gets_latest_config_once() {
    let name = String::from("late");
    let mut hub = StreamHub::new(16);
    let sid = hub.start_publish(&name);
    assert!(hub.publish_header(sid, &container_header(0x05), true));
    assert!(hub.publish_tag(sid, make_tag(9, &[0x17, 0x00, 0x01])));
    assert!(hub.publish_tag(sid, make_tag(9, &[0x17, 0x00, 0x02])));
    assert!(hub.publish_tag(sid, make_tag(9, &[0x17, 0x00, 0x03])));

    let ticket = hub.subscribe(&name);
    assert_eq!(ticket.header.unwrap(), container_header(0x04));
    assert_eq!(ticket.config.unwrap().bytes, tag_bytes(9, &[0x17, 0x00, 0x03]));
    // The snapshot is not duplicated on the live cursor.
    assert!(matches!(hub.recv(sid, ticket.cursor), RecvOutcome::Empty));
}

// Order preservation through the hub: tags arrive at a subscriber in
// exactly the order the publisher sent them.
#[test]
fn hub_preserves_publish_order() {
    let name = String::from("ordered");
    let mut hub = StreamHub::new(64);
    let sid = hub.start_publish(&name);
    let ticket = hub.subscribe(&name);
    assert!(hub.publish_header(sid, &container_header(0x04), true));
    for i in 0..10u8 {
        assert!(hub.publish_tag(sid, make_tag(9, &[0x27, i])));
    }
    match hub.recv(sid, ticket.cursor) {
        RecvOutcome::Item(x) => assert_eq!(x, container_header(0x04)),
        _ => panic!("expected the header"),
    }
    for i in 0..10u8 {
        match hub.recv(sid, ticket.cursor) {
            RecvOutcome::Item(x) => assert_eq!(x, tag_bytes(9, &[0x27, i])),
            _ => panic!("missing tag {}", i),
        }
    }
}

// When the publisher's ingest ends, the stream state is removed:
// subscribers observe closure, and a new publish under the same name
// starts clean.
#[test]
fn hub_end_publish_closes_subscribers() {
    let name = String::from("gone");
    let mut hub = StreamHub::new(16);
    let sid = hub.start_publish(&name);
    let ticket = hub.subscribe(&name);
    assert!(hub.publish_header(sid, &container_header(0x04), false));
    hub.end_publish(sid);
    assert!(matches!(hub.recv(sid, ticket.cursor), RecvOutcome::Closed));

    // A new session under the same name has a fresh id and no cache.
    let sid2 = hub.start_publish(&name);
    assert_ne!(sid, sid2);
    let ticket2 = hub.subscribe(&name);
    assert!(ticket2.header.is_none());
    // The old cursor still observes closure, not the new stream.
    assert!(matches!(hub.recv(sid, ticket.cursor), RecvOutcome::Closed));
}

#[test]
fn hub_publish_to_missing_stream_does_nothing() {
    let mut hub = StreamHub::new(4);
    assert!(!hub.publish_header(7, &container_header(0x04), false));
    assert!(!hub.publish_tag(7, make_tag(9, &[0x27])));
    assert!(matches!(hub.recv(7, 0), RecvOutcome::Closed));
}

#[test]
fn hub_unsubscribe_detaches_only_that_cursor() {
    let name = String::from("pair");
    let mut hub = StreamHub::new(16);
    let sid = hub.start_publish(&name);
    let a = hub.subscribe(&name);
    let b = hub.subscribe(&name);
    hub.unsubscribe(sid, a.cursor);
    assert!(hub.publish_header(sid, &container_header(0x04), false));
    assert!(matches!(hub.recv(sid, a.cursor), RecvOutcome::Closed));
    assert!(matches!(hub.recv(sid, b.cursor), RecvOutcome::Item(_)));
}
