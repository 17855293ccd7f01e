use router::codec::{encode_descriptor, ConnectionDescriptor, DescriptorKind};
use router::errors::RouterError;
use router::peer::{ConnState, PeerManager};

fn offer_text(sdp: &str) -> Vec<u8> {
    let d = ConnectionDescriptor { kind: DescriptorKind::Offer, sdp: sdp.as_bytes().to_vec() };
    encode_descriptor(&d)
}

fn answer_text(sdp: &str) -> Vec<u8> {
    let d = ConnectionDescriptor { kind: DescriptorKind::Answer, sdp: sdp.as_bytes().to_vec() };
    encode_descriptor(&d)
}

#[test]
fn uniqueness_under_serialized_registration() {
    let mut m = PeerManager::new();
    m.create_offer("alpha".to_string());
    assert_eq!(m.check_new_peer(&"alpha".to_string()), Err(RouterError::DuplicatePeer));
    assert_eq!(m.check_new_peer(&"beta".to_string()), Ok(()));
    m.create_offer("beta".to_string());
    assert_eq!(m.peer_count(), 2);
    // Re-registering an existing name replaces its entry: never a second
    // entry under the same name.
    m.create_offer("alpha".to_string());
    assert_eq!(m.peer_count(), 2);
}

#[test]
fn has_peer_reports_membership() {
    let mut m = PeerManager::new();
    assert!(!m.has_peer(&"a".to_string()));
    m.create_offer("a".to_string());
    assert!(m.has_peer(&"a".to_string()));
    assert!(!m.has_peer(&"b".to_string()));
}

#[test]
fn create_offer_starts_created() {
    let mut m = PeerManager::new();
    m.create_offer("a".to_string());
    assert_eq!(m.get_state(&"a".to_string()), Some(ConnState::Created));
}

#[test]
fn complete_local_description_returns_offer_text() {
    let mut m = PeerManager::new();
    m.create_offer("a".to_string());
    let text = m.complete_local_description(&"a".to_string(), "sdp-a".as_bytes().to_vec()).unwrap();
    assert_eq!(text, offer_text("sdp-a"));
    assert_eq!(m.get_state(&"a".to_string()), Some(ConnState::AwaitingRemoteDescriptor));
}

#[test]
fn complete_local_description_unknown_peer() {
    let mut m = PeerManager::new();
    let r = m.complete_local_description(&"ghost".to_string(), Vec::new());
    assert_eq!(r, Err(RouterError::PeerNotFound));
}

#[test]
fn accept_offer_stores_remote_description() {
    let mut m = PeerManager::new();
    let text = offer_text("sdp-from-initiator");
    m.accept_offer("ini".to_string(), &text).unwrap();
    assert_eq!(m.get_state(&"ini".to_string()), Some(ConnState::Created));
    let remote = m.remote_description(&"ini".to_string()).unwrap();
    assert_eq!(remote.kind, DescriptorKind::Offer);
    assert_eq!(remote.sdp, "sdp-from-initiator".as_bytes().to_vec());
    // The responder's own answer then comes out as answer text.
    let answer = m.complete_local_description(&"ini".to_string(), "sdp-b".as_bytes().to_vec());
    assert_eq!(answer.unwrap(), answer_text("sdp-b"));
    assert_eq!(m.get_state(&"ini".to_string()), Some(ConnState::Negotiating));
}

#[test]
fn accept_offer_rejects_malformed() {
    // The connection is registered before the offer is deserialized:
    // a malformed offer is reported, and the fresh entry remains, with
    // no remote description and no partial-state repair.
    let mut m = PeerManager::new();
    let r = m.accept_offer("x".to_string(), &"not a descriptor".as_bytes().to_vec());
    assert_eq!(r, Err(RouterError::MalformedDescriptor));
    assert_eq!(m.peer_count(), 1);
    assert_eq!(m.get_state(&"x".to_string()), Some(ConnState::Created));
    assert!(m.remote_description(&"x".to_string()).is_none());
    assert_eq!(m.check_new_peer(&"x".to_string()), Err(RouterError::DuplicatePeer));
}

#[test]
fn double_accept_silently_overwrites() {
    // The known race, kept deliberately: a second registration for the
    // same name before the first completes replaces the first entry,
    // which is orphaned and no longer addressed by later events.
    let mut m = PeerManager::new();
    m.accept_offer("p".to_string(), &offer_text("first")).unwrap();
    m.accept_offer("p".to_string(), &offer_text("second")).unwrap();
    assert_eq!(m.peer_count(), 1);
    let remote = m.remote_description(&"p".to_string()).unwrap();
    assert_eq!(remote.sdp, "second".as_bytes().to_vec());
    assert_eq!(m.get_state(&"p".to_string()), Some(ConnState::Created));
}

#[test]
fn set_answer_as_offerer_applies_answer() {
    let mut m = PeerManager::new();
    m.create_offer("b".to_string());
    let _ = m.complete_local_description(&"b".to_string(), "sdp-a".as_bytes().to_vec()).unwrap();
    m.set_answer_as_offerer(&"b".to_string(), &answer_text("sdp-b")).unwrap();
    assert_eq!(m.get_state(&"b".to_string()), Some(ConnState::Negotiating));
    let remote = m.remote_description(&"b".to_string()).unwrap();
    assert_eq!(remote.kind, DescriptorKind::Answer);
    assert_eq!(remote.sdp, "sdp-b".as_bytes().to_vec());
}

#[test]
fn set_answer_unknown_peer() {
    let mut m = PeerManager::new();
    let r = m.set_answer_as_offerer(&"ghost".to_string(), &answer_text("x"));
    assert_eq!(r, Err(RouterError::PeerNotFound));
}

#[test]
fn set_answer_rejects_malformed() {
    let mut m = PeerManager::new();
    m.create_offer("b".to_string());
    let r = m.set_answer_as_offerer(&"b".to_string(), &"???".as_bytes().to_vec());
    assert_eq!(r, Err(RouterError::MalformedDescriptor));
    assert_eq!(m.get_state(&"b".to_string()), Some(ConnState::Created));
}

#[test]
fn register_channel_marks_peer() {
    let mut m = PeerManager::new();
    assert_eq!(m.register_channel(&"a".to_string()), Err(RouterError::PeerNotFound));
    m.create_offer("a".to_string());
    assert_eq!(m.register_channel(&"a".to_string()), Ok(()));
}

#[test]
fn broadcast_reaches_every_channel() {
    let mut m = PeerManager::new();
    m.create_offer("a".to_string());
    m.create_offer("b".to_string());
    m.create_offer("c".to_string());
    m.register_channel(&"a".to_string()).unwrap();
    m.register_channel(&"c".to_string()).unwrap();
    let frame = vec![69, 0, 0, 20, 1, 2, 3];
    let plan = m.route_and_send(&frame);
    // Exactly one delivery per registered channel, each an identical
    // copy; entries are independent, so a failing send costs only its
    // own entry.
    assert_eq!(plan.len(), 2);
    assert_eq!(plan[0].peer_id, "a");
    assert_eq!(plan[1].peer_id, "c");
    for f in &plan {
        assert_eq!(f.payload, frame);
    }
}

#[test]
fn broadcast_with_no_channels_is_empty() {
    let mut m = PeerManager::new();
    m.create_offer("a".to_string());
    let plan = m.route_and_send(&vec![1, 2, 3]);
    assert!(plan.is_empty());
}

#[test]
fn error_descriptions() {
    assert_eq!(RouterError::DuplicatePeer.describe(), "duplicate peer");
    assert_eq!(RouterError::PeerNotFound.describe(), "peer not found");
    assert_eq!(RouterError::MalformedDescriptor.describe(), "malformed descriptor");
    assert_eq!(RouterError::TransportNegotiationFailure.describe(), "transport negotiation failure");
    assert_eq!(RouterError::LocalInterfaceIOFailure.describe(), "local interface I/O failure");
    assert_eq!(RouterError::RemoteSendFailure.describe(), "remote send failure");
}
