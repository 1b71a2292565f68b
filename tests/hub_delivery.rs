use rrconverter::hub::Hub;
use rrconverter::passing::WsMessage;

fn status(text: &str) -> WsMessage {
    WsMessage::Status { event: text.to_string() }
}

fn event_of(m: Option<WsMessage>) -> Option<String> {
    match m {
        Some(WsMessage::Status { event }) => Some(event),
        Some(WsMessage::Passing(p)) => Some(p.transponder),
        None => None,
    }
}

#[test]
fn every_subscriber_gets_each_message_in_order() {
    let mut hub = Hub::new(10);
    let a = hub.subscribe().unwrap();
    let b = hub.subscribe().unwrap();
    assert_ne!(a, b);
    assert_eq!(hub.publish(status("m1")), 2);
    assert_eq!(event_of(hub.recv(a)), Some("m1".to_string()));
    assert_eq!(hub.publish(status("m2")), 2);
    assert_eq!(event_of(hub.recv(a)), Some("m2".to_string()));
    assert_eq!(event_of(hub.recv(a)), None);
    assert_eq!(event_of(hub.recv(b)), Some("m1".to_string()));
    assert_eq!(event_of(hub.recv(b)), Some("m2".to_string()));
    assert_eq!(event_of(hub.recv(b)), None);
}

#[test]
fn publish_without_subscribers_is_a_no_op() {
    let mut hub = Hub::new(3);
    assert_eq!(hub.publish(status("lost")), 0);
    let a = hub.subscribe().unwrap();
    assert_eq!(event_of(hub.recv(a)), None);
}

#[test]
fn lagging_subscriber_loses_only_its_oldest() {
    let mut hub = Hub::new(3);
    let slow = hub.subscribe().unwrap();
    let fast = hub.subscribe().unwrap();
    for i in 1..=5 {
        assert_eq!(hub.publish(status(&format!("m{}", i))), 2);
        assert_eq!(event_of(hub.recv(fast)), Some(format!("m{}", i)));
    }
    assert_eq!(event_of(hub.recv(slow)), Some("m3".to_string()));
    assert_eq!(event_of(hub.recv(slow)), Some("m4".to_string()));
    assert_eq!(event_of(hub.recv(slow)), Some("m5".to_string()));
    assert_eq!(event_of(hub.recv(slow)), None);
}

#[test]
fn unsubscribed_ids_receive_nothing() {
    let mut hub = Hub::new(4);
    let a = hub.subscribe().unwrap();
    let b = hub.subscribe().unwrap();
    assert!(hub.unsubscribe(a));
    assert!(!hub.unsubscribe(a));
    assert_eq!(hub.subscriber_count(), 1);
    assert_eq!(hub.publish(status("x")), 1);
    assert_eq!(event_of(hub.recv(a)), None);
    assert_eq!(event_of(hub.recv(b)), Some("x".to_string()));
    assert_eq!(event_of(hub.recv(999)), None);
}

#[test]
fn subscribers_get_fresh_ids_in_order() {
    let mut hub = Hub::new(2);
    assert_eq!(hub.subscribe(), Some(0));
    assert_eq!(hub.subscribe(), Some(1));
    assert!(hub.unsubscribe(0));
    assert_eq!(hub.subscribe(), Some(2));
    assert_eq!(hub.subscriber_count(), 2);
}
