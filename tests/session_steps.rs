use rrconverter::hub::Hub;
use rrconverter::passing::WsMessage;
use rrconverter::session::{DecoderSession, Phase, SessionAction, SessionEvent};

fn status_of(a: &SessionAction) -> Option<String> {
    match a {
        SessionAction::Publish(WsMessage::Status { event }) => Some(event.clone()),
        _ => None,
    }
}

fn sent(a: &SessionAction) -> Option<String> {
    match a {
        SessionAction::Send(f) => Some(f.clone()),
        _ => None,
    }
}

#[test]
fn connecting_publishes_status_and_sends_handshake() {
    let mut s = DecoderSession::new();
    let acts = s.step(SessionEvent::ConnectSucceeded);
    assert_eq!(s.phase, Phase::Streaming);
    assert!(s.connected);
    assert_eq!(acts.len(), 3);
    assert_eq!(status_of(&acts[0]), Some("connected".to_string()));
    assert_eq!(sent(&acts[1]), Some("SETPROTOCOL;2.0".to_string()));
    assert_eq!(sent(&acts[2]), Some("SETPUSHPASSINGS;1;1".to_string()));
}

#[test]
fn failed_connect_backs_off_and_retries() {
    let mut s = DecoderSession::new();
    let acts = s.step(SessionEvent::ConnectFailed);
    assert_eq!(s.phase, Phase::Connecting);
    assert_eq!(acts.len(), 2);
    assert!(matches!(acts[0], SessionAction::Sleep(5)));
    assert!(matches!(acts[1], SessionAction::Connect));
}

#[test]
fn keepalive_sends_ping() {
    let mut s = DecoderSession::new();
    s.step(SessionEvent::ConnectSucceeded);
    let acts = s.step(SessionEvent::PingDue);
    assert_eq!(acts.len(), 1);
    assert_eq!(sent(&acts[0]), Some("PING".to_string()));
}

#[test]
fn disconnect_is_announced_once() {
    let mut s = DecoderSession::new();
    s.step(SessionEvent::ConnectSucceeded);
    let first = s.step(SessionEvent::ConnectionLost);
    let second = s.step(SessionEvent::ConnectionLost);
    let third = s.step(SessionEvent::ConnectFailed);
    let count = first.iter().chain(second.iter()).chain(third.iter())
        .filter(|a| status_of(a) == Some("disconnected".to_string()))
        .count();
    assert_eq!(count, 1);
    assert!(!s.connected);
    assert!(matches!(first.last(), Some(SessionAction::Connect)));
}

#[test]
fn short_line_is_reported_not_published() {
    let mut s = DecoderSession::new();
    s.step(SessionEvent::ConnectSucceeded);
    let acts = s.step(SessionEvent::LineReceived("#P;1;2".to_string()));
    assert_eq!(acts.len(), 1);
    assert!(matches!(&acts[0], SessionAction::LogRejected(l) if l == "#P;1;2"));
    assert!(s.step(SessionEvent::LineReceived("PING".to_string())).is_empty());
}

#[test]
fn decoded_passing_reaches_every_subscriber() {
    let mut hub = Hub::new(100);
    let a = hub.subscribe().unwrap();
    let b = hub.subscribe().unwrap();
    let mut s = DecoderSession::new();
    s.step(SessionEvent::ConnectSucceeded);
    let line = "#P;12;TAG1;2024-01-01;10:00:00;EVT;1;99;AB;1;1;0;3.7;20;CD;25;BOX1";
    for act in s.step(SessionEvent::LineReceived(line.to_string())) {
        if let SessionAction::Publish(m) = act {
            assert_eq!(hub.publish(m), 2);
        }
    }
    for id in [a, b] {
        match hub.recv(id) {
            Some(WsMessage::Passing(p)) => {
                assert_eq!(p.passing_number, "12");
                assert_eq!(p.transponder, "TAG1");
                assert_eq!(p.date, "2024-01-01T10:00:00");
            }
            _ => panic!("no passing for subscriber {}", id),
        }
        assert!(hub.recv(id).is_none());
    }
}
