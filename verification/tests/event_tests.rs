use router::event::{EventBus, LanEvent};

#[test]
fn bus_delivers_in_arrival_order() {
    let mut bus = EventBus::new(8);
    assert!(bus.try_push(LanEvent::PeerConnected("a".to_string())).is_none());
    assert!(bus.try_push(LanEvent::PacketFromPeer(vec![1, 2])).is_none());
    assert!(bus.try_push(LanEvent::PeerDisconnected("a".to_string())).is_none());
    assert_eq!(bus.len(), 3);
    match bus.pop() {
        Some(LanEvent::PeerConnected(id)) => assert_eq!(id, "a"),
        _ => panic!("expected the first event"),
    }
    match bus.pop() {
        Some(LanEvent::PacketFromPeer(b)) => assert_eq!(b, vec![1, 2]),
        _ => panic!("expected the second event"),
    }
    match bus.pop() {
        Some(LanEvent::PeerDisconnected(id)) => assert_eq!(id, "a"),
        _ => panic!("expected the third event"),
    }
    assert!(bus.pop().is_none());
    assert_eq!(bus.len(), 0);
}

#[test]
fn full_bus_hands_the_event_back() {
    // Backpressure, not loss: a producer that finds the inbox full gets
    // its event back to retry with; nothing already queued is touched.
    let mut bus = EventBus::new(1);
    assert!(bus.try_push(LanEvent::PeerConnected("first".to_string())).is_none());
    match bus.try_push(LanEvent::PeerConnected("second".to_string())) {
        Some(LanEvent::PeerConnected(id)) => assert_eq!(id, "second"),
        _ => panic!("expected the rejected event back"),
    }
    assert_eq!(bus.len(), 1);
    match bus.pop() {
        Some(LanEvent::PeerConnected(id)) => assert_eq!(id, "first"),
        _ => panic!("expected the first event"),
    }
}

#[test]
fn pop_on_empty_bus_is_none() {
    let mut bus = EventBus::new(4);
    assert!(bus.pop().is_none());
}
