use crate::event::{EventModel, LanEvent};
use crate::peer::{
    broadcast_plan, has_id, set_state_spec, ConnState, EntryModel, OutboundFrame, PeerManager,
};
use vstd::prelude::*;

verus! {

/// The coordination core: decides what one uplink read or one inbox
/// event means for the registry and for the local interface.  The
/// surrounding program runs the loops, performs the reads, sends and
/// writes, and feeds every outcome back through these decisions.
pub struct Router {}

/// What the coordination loop must do in response to one event.
pub enum RouterAction {
    /// Write the bytes verbatim to the local interface.
    WriteLocal(Vec<u8>),
    /// Report that the named peer reached the connected state.
    AnnounceConnected(String),
    /// Report that the named peer failed or was closed.
    AnnounceDisconnected(String),
    /// Surface a remote offer received for the named peer.
    AnnounceOffer(String, String),
}

/// The mathematical value of a [`RouterAction`].
#[verifier::ext_equal]
pub enum ActionModel {
    WriteLocal(Seq<u8>),
    AnnounceConnected(Seq<char>),
    AnnounceDisconnected(Seq<char>),
    AnnounceOffer(Seq<char>, Seq<char>),
}

impl View for RouterAction {
    type V = ActionModel;

    open spec fn view(&self) -> ActionModel {
        match self {
            RouterAction::WriteLocal(b) => ActionModel::WriteLocal(b@),
            RouterAction::AnnounceConnected(id) => ActionModel::AnnounceConnected(id@),
            RouterAction::AnnounceDisconnected(id) => ActionModel::AnnounceDisconnected(id@),
            RouterAction::AnnounceOffer(id, sdp) => ActionModel::AnnounceOffer(id@, sdp@),
        }
    }
}

/// The action one inbox event maps to: peer bytes go verbatim to the
/// local interface, the rest is reported.
pub open spec fn action_spec(ev: EventModel) -> ActionModel {
    match ev {
        EventModel::PacketFromPeer(b) => ActionModel::WriteLocal(b),
        EventModel::PeerConnected(id) => ActionModel::AnnounceConnected(id),
        EventModel::PeerDisconnected(id) => ActionModel::AnnounceDisconnected(id),
        EventModel::NewPeerOffer(id, sdp) => ActionModel::AnnounceOffer(id, sdp),
    }
}

/// The registry bookkeeping one inbox event causes: connectivity
/// notifications move the named peer's state, everything else leaves
/// the registry untouched.  A notification for a peer no longer
/// registered (one overwritten since) is dropped.
pub open spec fn bookkeeping_spec(s: Seq<EntryModel>, ev: EventModel) -> Seq<EntryModel> {
    match ev {
        EventModel::PeerConnected(id) => if has_id(s, id) {
            set_state_spec(s, id, ConnState::Connected)
        } else {
            s
        },
        EventModel::PeerDisconnected(id) => if has_id(s, id) {
            set_state_spec(s, id, ConnState::Disconnected)
        } else {
            s
        },
        _ => s,
    }
}

impl Router {
    /// A router; it holds no state of its own.
    pub fn new() -> (r: Self) {
        Router {}
    }

    /// Uplink: plans the fan-out of one local-interface read.  A
    /// zero-length read produces no broadcast and no error; a
    /// non-empty frame is planned for every registered tunnel channel.
    pub fn route(&self, manager: &PeerManager, frame: &Vec<u8>) -> (plan: Vec<OutboundFrame>)
        ensures
            frame@.len() == 0 ==> plan@.len() == 0,
            frame@.len() > 0 ==> plan@.map_values(|f: OutboundFrame| f@) == broadcast_plan(
                manager@,
                frame@,
            ),
    {
        if frame.len() == 0 {
            Vec::new()
        } else {
            manager.route_and_send(frame)
        }
    }

    /// Downlink and bookkeeping: consumes one inbox event, updates the
    /// registry as [`bookkeeping_spec`] says, and returns the action
    /// the loop must perform, as [`action_spec`] says.  This is the
    /// sole consumer of the inbox and the sole mutator of connectivity
    /// state, so transitions apply one at a time in arrival order.
    pub fn handle_event(&self, manager: &mut PeerManager, ev: LanEvent) -> (act: RouterAction)
        requires
            old(manager).wf(),
        ensures
            final(manager).wf(),
            act@ == action_spec(ev@),
            final(manager)@ == bookkeeping_spec(old(manager)@, ev@),
    {
        match ev {
            LanEvent::PacketFromPeer(b) => RouterAction::WriteLocal(b),
            LanEvent::PeerConnected(id) => {
                let _ = manager.set_state(&id, ConnState::Connected);
                RouterAction::AnnounceConnected(id)
            },
            LanEvent::PeerDisconnected(id) => {
                let _ = manager.set_state(&id, ConnState::Disconnected);
                RouterAction::AnnounceDisconnected(id)
            },
            LanEvent::NewPeerOffer(id, sdp) => RouterAction::AnnounceOffer(id, sdp),
        }
    }
}

} // verus!
