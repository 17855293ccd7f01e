use vstd::prelude::*;

verus! {

/// A notification carried from the asynchronous transport callbacks
/// and the downlink into the single coordination loop.
#[derive(Debug)]
pub enum LanEvent {
    /// Bytes arrived from some peer's tunnel channel.
    PacketFromPeer(Vec<u8>),
    /// A remote offer descriptor arrived for the named peer.
    NewPeerOffer(String, String),
    /// The named peer's transport reached the connected state.
    PeerConnected(String),
    /// The named peer's transport failed or was closed.
    PeerDisconnected(String),
}

/// The mathematical value of a [`LanEvent`].
#[verifier::ext_equal]
pub enum EventModel {
    PacketFromPeer(Seq<u8>),
    NewPeerOffer(Seq<char>, Seq<char>),
    PeerConnected(Seq<char>),
    PeerDisconnected(Seq<char>),
}

impl View for LanEvent {
    type V = EventModel;

    open spec fn view(&self) -> EventModel {
        match self {
            LanEvent::PacketFromPeer(b) => EventModel::PacketFromPeer(b@),
            LanEvent::NewPeerOffer(id, sdp) => EventModel::NewPeerOffer(id@, sdp@),
            LanEvent::PeerConnected(id) => EventModel::PeerConnected(id@),
            LanEvent::PeerDisconnected(id) => EventModel::PeerDisconnected(id@),
        }
    }
}

/// The connectivity states a peer transport reports, as the transport
/// engine notifies them.
#[derive(Clone, Copy, PartialEq, Eq, Structural, Debug)]
pub enum TransportState {
    New,
    Connecting,
    Connected,
    Disconnected,
    Failed,
    Closed,
}

/// The event, if any, that one transport connectivity transition
/// produces: `PeerConnected` exactly on reaching the connected state,
/// `PeerDisconnected` exactly on failure or closure.
pub open spec fn state_event_spec(id: Seq<char>, s: TransportState) -> Option<EventModel> {
    if s == TransportState::Connected {
        Some(EventModel::PeerConnected(id))
    } else if s == TransportState::Failed || s == TransportState::Closed {
        Some(EventModel::PeerDisconnected(id))
    } else {
        None
    }
}

/// The state-change callback's decision, shared by both roles: maps
/// one transport connectivity transition to the notification to
/// enqueue, and never anything more.
pub fn connection_state_event(peer_id: String, s: TransportState) -> (r: Option<LanEvent>)
    ensures
        r is Some <==> state_event_spec(peer_id@, s) is Some,
        r is Some ==> r->0@ == state_event_spec(peer_id@, s)->0,
{
    match s {
        TransportState::Connected => Some(LanEvent::PeerConnected(peer_id)),
        TransportState::Failed => Some(LanEvent::PeerDisconnected(peer_id)),
        TransportState::Closed => Some(LanEvent::PeerDisconnected(peer_id)),
        _ => None,
    }
}

/// Single emission: one connectivity transition yields at most one
/// event, and it is `PeerConnected` exactly when the transition is
/// into the connected state.
pub proof fn lemma_single_emission(id: Seq<char>, s: TransportState)
    ensures
        (state_event_spec(id, s) is Some && state_event_spec(id, s)->0 is PeerConnected) <==> s
            == TransportState::Connected,
        s == TransportState::Connected ==> state_event_spec(id, s) == Some(
            EventModel::PeerConnected(id),
        ),
{
}

/// The ordered, bounded inbox between the transport callbacks and the
/// coordination loop.  Producers that find it full must hold the event
/// back and retry (backpressure), never drop it.
pub struct EventBus {
    events: Vec<LanEvent>,
    capacity: usize,
}

impl View for EventBus {
    type V = Seq<EventModel>;

    closed spec fn view(&self) -> Seq<EventModel> {
        self.events@.map_values(|e: LanEvent| e@)
    }
}

impl EventBus {
    /// The fixed number of events the inbox can hold.
    pub closed spec fn cap(&self) -> nat {
        self.capacity as nat
    }

    /// The inbox never holds more events than its capacity.
    pub open spec fn wf(&self) -> bool {
        self@.len() <= self.cap() && self.cap() >= 1
    }

    /// An empty inbox of the given capacity.
    pub fn new(capacity: usize) -> (r: Self)
        requires
            capacity >= 1,
        ensures
            r@ == Seq::<EventModel>::empty(),
            r.cap() == capacity,
            r.wf(),
    {
        let r = EventBus { events: Vec::new(), capacity };
        proof {
            assert(r@ =~= Seq::<EventModel>::empty());
        }
        r
    }

    /// How many events are waiting.
    pub fn len(&self) -> (r: usize)
        ensures
            r == self@.len(),
    {
        self.events.len()
    }

    /// Appends an event at the back, in arrival order.  When the inbox
    /// is full the event is handed back unchanged and nothing is lost:
    /// the producer must retry.
    pub fn try_push(&mut self, e: LanEvent) -> (r: Option<LanEvent>)
        requires
            old(self).wf(),
        ensures
            final(self).wf(),
            final(self).cap() == old(self).cap(),
            old(self)@.len() < old(self).cap() ==> r is None && final(self)@ == old(self)@.push(
                e@,
            ),
            old(self)@.len() >= old(self).cap() ==> final(self)@ == old(self)@ && r is Some && r
                ->0@ == e@,
    {
        if self.events.len() < self.capacity {
            let ghost e_model = e@;
            self.events.push(e);
            proof {
                assert(self@ =~= old(self)@.push(e_model));
            }
            None
        } else {
            Some(e)
        }
    }

    /// Removes and returns the oldest waiting event, if any.
    pub fn pop(&mut self) -> (r: Option<LanEvent>)
        requires
            old(self).wf(),
        ensures
            final(self).wf(),
            final(self).cap() == old(self).cap(),
            old(self)@.len() == 0 ==> r is None && final(self)@ == old(self)@,
            old(self)@.len() > 0 ==> r is Some && r->0@ == old(self)@[0] && final(self)@ == old(
                self,
            )@.subrange(1, old(self)@.len() as int),
    {
        if self.events.len() == 0 {
            None
        } else {
            let e = self.events.remove(0);
            proof {
                assert(self@ =~= old(self)@.subrange(1, old(self)@.len() as int));
            }
            Some(e)
        }
    }
}

} // verus!
