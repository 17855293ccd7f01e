use router::codec::DescriptorKind;
use router::event::{connection_state_event, LanEvent, TransportState};
use router::peer::{ConnState, PeerManager};
use router::router::{Router, RouterAction};

#[test]
fn zero_length_read_produces_no_broadcast() {
    let mut m = PeerManager::new();
    m.create_offer("a".to_string());
    m.register_channel(&"a".to_string()).unwrap();
    let r = Router::new();
    let plan = r.route(&m, &Vec::new());
    assert!(plan.is_empty());
}

#[test]
fn nonempty_read_is_broadcast() {
    let mut m = PeerManager::new();
    m.create_offer("a".to_string());
    m.register_channel(&"a".to_string()).unwrap();
    let r = Router::new();
    let frame = vec![1, 2, 3];
    let plan = r.route(&m, &frame);
    assert_eq!(plan.len(), 1);
    assert_eq!(plan[0].peer_id, "a");
    assert_eq!(plan[0].payload, frame);
}

#[test]
fn packet_event_writes_verbatim() {
    let mut m = PeerManager::new();
    let r = Router::new();
    let bytes = vec![9, 8, 7, 6];
    match r.handle_event(&mut m, LanEvent::PacketFromPeer(bytes.clone())) {
        RouterAction::WriteLocal(b) => assert_eq!(b, bytes),
        _ => panic!("expected a local write"),
    }
}

#[test]
fn connected_event_moves_state() {
    let mut m = PeerManager::new();
    m.create_offer("a".to_string());
    let r = Router::new();
    match r.handle_event(&mut m, LanEvent::PeerConnected("a".to_string())) {
        RouterAction::AnnounceConnected(id) => assert_eq!(id, "a"),
        _ => panic!("expected a connected announcement"),
    }
    assert_eq!(m.get_state(&"a".to_string()), Some(ConnState::Connected));
}

#[test]
fn disconnected_event_moves_state() {
    let mut m = PeerManager::new();
    m.create_offer("a".to_string());
    let r = Router::new();
    match r.handle_event(&mut m, LanEvent::PeerDisconnected("a".to_string())) {
        RouterAction::AnnounceDisconnected(id) => assert_eq!(id, "a"),
        _ => panic!("expected a disconnected announcement"),
    }
    assert_eq!(m.get_state(&"a".to_string()), Some(ConnState::Disconnected));
}

#[test]
fn event_for_unknown_peer_changes_nothing() {
    let mut m = PeerManager::new();
    m.create_offer("a".to_string());
    let r = Router::new();
    let _ = r.handle_event(&mut m, LanEvent::PeerConnected("ghost".to_string()));
    assert_eq!(m.peer_count(), 1);
    assert_eq!(m.get_state(&"a".to_string()), Some(ConnState::Created));
}

#[test]
fn offer_event_is_surfaced() {
    let mut m = PeerManager::new();
    let r = Router::new();
    match r.handle_event(
        &mut m,
        LanEvent::NewPeerOffer("p".to_string(), "text".to_string()),
    ) {
        RouterAction::AnnounceOffer(id, sdp) => {
            assert_eq!(id, "p");
            assert_eq!(sdp, "text");
        },
        _ => panic!("expected an offer announcement"),
    }
}

#[test]
fn state_callback_emits_connected_only_on_connected() {
    // At most one emission per transition, and `PeerConnected` exactly
    // on the transition into the connected state.
    match connection_state_event("p".to_string(), TransportState::Connected) {
        Some(LanEvent::PeerConnected(id)) => assert_eq!(id, "p"),
        _ => panic!("expected a connected event"),
    }
    match connection_state_event("p".to_string(), TransportState::Failed) {
        Some(LanEvent::PeerDisconnected(id)) => assert_eq!(id, "p"),
        _ => panic!("expected a disconnected event"),
    }
    match connection_state_event("p".to_string(), TransportState::Closed) {
        Some(LanEvent::PeerDisconnected(id)) => assert_eq!(id, "p"),
        _ => panic!("expected a disconnected event"),
    }
    assert!(connection_state_event("p".to_string(), TransportState::New).is_none());
    assert!(connection_state_event("p".to_string(), TransportState::Connecting).is_none());
    assert!(connection_state_event("p".to_string(), TransportState::Disconnected).is_none());
}

#[test]
fn manual_signaling_scenario() {
    // Side A offers to B, B answers, A applies the answer; both observe
    // the connected transition; a frame from A's interface then appears
    // verbatim at B's interface.
    let mut a = PeerManager::new();
    let mut b = PeerManager::new();
    let router_a = Router::new();
    let router_b = Router::new();

    // A: create the connection, pre-create its channel, publish D1.
    a.check_new_peer(&"B".to_string()).unwrap();
    a.create_offer("B".to_string());
    a.register_channel(&"B".to_string()).unwrap();
    let d1 = a.complete_local_description(&"B".to_string(), "sdp-of-A".as_bytes().to_vec()).unwrap();

    // B: accept D1, register the peer-opened channel, publish D2.
    b.check_new_peer(&"A".to_string()).unwrap();
    b.accept_offer("A".to_string(), &d1).unwrap();
    let stored = b.remote_description(&"A".to_string()).unwrap();
    assert_eq!(stored.kind, DescriptorKind::Offer);
    assert_eq!(stored.sdp, "sdp-of-A".as_bytes().to_vec());
    b.register_channel(&"A".to_string()).unwrap();
    let d2 = b.complete_local_description(&"A".to_string(), "sdp-of-B".as_bytes().to_vec()).unwrap();

    // A: apply D2 as the remote answer.
    a.set_answer_as_offerer(&"B".to_string(), &d2).unwrap();
    let applied = a.remote_description(&"B".to_string()).unwrap();
    assert_eq!(applied.kind, DescriptorKind::Answer);
    assert_eq!(applied.sdp, "sdp-of-B".as_bytes().to_vec());

    // Both sides observe the connected transition.
    let ev_a = connection_state_event("B".to_string(), TransportState::Connected).unwrap();
    let _ = router_a.handle_event(&mut a, ev_a);
    let ev_b = connection_state_event("A".to_string(), TransportState::Connected).unwrap();
    let _ = router_b.handle_event(&mut b, ev_b);
    assert_eq!(a.get_state(&"B".to_string()), Some(ConnState::Connected));
    assert_eq!(b.get_state(&"A".to_string()), Some(ConnState::Connected));

    // A frame written to A's interface reaches B's interface verbatim.
    let frame = vec![69, 0, 0, 28, 0, 1, 2, 3];
    let plan = router_a.route(&a, &frame);
    assert_eq!(plan.len(), 1);
    assert_eq!(plan[0].peer_id, "B");
    let delivered = plan[0].payload.clone();
    match router_b.handle_event(&mut b, LanEvent::PacketFromPeer(delivered)) {
        RouterAction::WriteLocal(written) => assert_eq!(written, frame),
        _ => panic!("expected a local write"),
    }
}
