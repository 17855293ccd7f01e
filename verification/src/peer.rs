use crate::codec::{
    decode_descriptor, decode_spec, encode_descriptor, encode_spec, ConnectionDescriptor,
    DescModel, DescriptorKind,
};
use crate::errors::RouterError;
use vstd::prelude::*;

verus! {

/// Which side of the signaling exchange created a connection.
#[derive(Clone, Copy, PartialEq, Eq, Structural, Debug)]
pub enum Role {
    Initiator,
    Responder,
}

/// The connectivity state of one peer connection.
#[derive(Clone, Copy, PartialEq, Eq, Structural, Debug)]
pub enum ConnState {
    Created,
    AwaitingRemoteDescriptor,
    Negotiating,
    Connected,
    Disconnected,
}

/// One registered peer: its transport handle's bookkeeping as the
/// coordination core sees it.
pub struct PeerEntry {
    pub id: String,
    pub role: Role,
    pub state: ConnState,
    pub has_channel: bool,
    pub local: Option<ConnectionDescriptor>,
    pub remote: Option<ConnectionDescriptor>,
}

/// The mathematical value of a [`PeerEntry`].
#[verifier::ext_equal]
pub struct EntryModel {
    pub id: Seq<char>,
    pub role: Role,
    pub state: ConnState,
    pub has_channel: bool,
    pub local: Option<DescModel>,
    pub remote: Option<DescModel>,
}

impl View for PeerEntry {
    type V = EntryModel;

    open spec fn view(&self) -> EntryModel {
        EntryModel {
            id: self.id@,
            role: self.role,
            state: self.state,
            has_channel: self.has_channel,
            local: match self.local {
                Some(d) => Some(d@),
                None => None,
            },
            remote: match self.remote {
                Some(d) => Some(d@),
                None => None,
            },
        }
    }
}

/// Whether some registered entry carries the given peer name.
pub open spec fn has_id(s: Seq<EntryModel>, id: Seq<char>) -> bool {
    exists|i: int| 0 <= i < s.len() && s[i].id == id
}

/// The position of the entry carrying the given peer name.  Under
/// [`registry_wf`] that position is unique.
pub open spec fn index_of(s: Seq<EntryModel>, id: Seq<char>) -> int {
    choose|i: int| 0 <= i < s.len() && s[i].id == id
}

/// The entry registered under the given peer name.
pub open spec fn entry_of(s: Seq<EntryModel>, id: Seq<char>) -> EntryModel {
    s[index_of(s, id)]
}

/// Uniqueness: no two registered peers share a name.
pub open spec fn registry_wf(s: Seq<EntryModel>) -> bool {
    forall|i: int, j: int| 0 <= i < j < s.len() ==> s[i].id != s[j].id
}

/// Registration is an unconditional upsert: an entry whose name is
/// already present silently replaces the old entry in place; a new
/// name is appended.
pub open spec fn upsert_spec(s: Seq<EntryModel>, e: EntryModel) -> Seq<EntryModel> {
    if has_id(s, e.id) {
        s.update(index_of(s, e.id), e)
    } else {
        s.push(e)
    }
}

/// The fresh entry an initiator-side registration makes.
pub open spec fn initiator_entry(id: Seq<char>) -> EntryModel {
    EntryModel {
        id,
        role: Role::Initiator,
        state: ConnState::Created,
        has_channel: false,
        local: None,
        remote: None,
    }
}

/// The fresh entry a responder-side registration makes: a well-formed
/// remote offer is already its remote description; a malformed one
/// leaves the fresh entry with none, since the connection is
/// registered before the offer is deserialized.
pub open spec fn responder_entry(id: Seq<char>, offer: Option<DescModel>) -> EntryModel {
    EntryModel {
        id,
        role: Role::Responder,
        state: ConnState::Created,
        has_channel: false,
        local: None,
        remote: offer,
    }
}

/// Which descriptor kind a role publishes.
pub open spec fn kind_of(role: Role) -> DescriptorKind {
    match role {
        Role::Initiator => DescriptorKind::Offer,
        Role::Responder => DescriptorKind::Answer,
    }
}

/// The state a connection reaches once its local descriptor is
/// published: an initiator then awaits the remote answer, while a
/// responder already holds both descriptions and negotiates.
pub open spec fn described_state(role: Role) -> ConnState {
    match role {
        Role::Initiator => ConnState::AwaitingRemoteDescriptor,
        Role::Responder => ConnState::Negotiating,
    }
}

/// `e` with its local descriptor recorded, advanced past descriptor
/// generation.
pub open spec fn with_local(e: EntryModel, d: DescModel) -> EntryModel {
    EntryModel {
        id: e.id,
        role: e.role,
        state: described_state(e.role),
        has_channel: e.has_channel,
        local: Some(d),
        remote: e.remote,
    }
}

/// `e` with a remote description applied, now negotiating.
pub open spec fn with_remote(e: EntryModel, d: DescModel) -> EntryModel {
    EntryModel {
        id: e.id,
        role: e.role,
        state: ConnState::Negotiating,
        has_channel: e.has_channel,
        local: e.local,
        remote: Some(d),
    }
}

/// `e` with a tunnel channel registered.
pub open spec fn with_channel(e: EntryModel) -> EntryModel {
    EntryModel {
        id: e.id,
        role: e.role,
        state: e.state,
        has_channel: true,
        local: e.local,
        remote: e.remote,
    }
}

/// `e` moved to the given connectivity state.
pub open spec fn with_state(e: EntryModel, st: ConnState) -> EntryModel {
    EntryModel {
        id: e.id,
        role: e.role,
        state: st,
        has_channel: e.has_channel,
        local: e.local,
        remote: e.remote,
    }
}

/// The registry after the named peer's local descriptor, built over
/// the given session payload, is recorded.
pub open spec fn complete_spec(s: Seq<EntryModel>, id: Seq<char>, sdp: Seq<u8>) -> Seq<EntryModel> {
    s.update(
        index_of(s, id),
        with_local(entry_of(s, id), DescModel { kind: kind_of(entry_of(s, id).role), sdp }),
    )
}

/// The registry after a remote answer is applied to the named peer.
pub open spec fn apply_answer_spec(s: Seq<EntryModel>, id: Seq<char>, d: DescModel) -> Seq<
    EntryModel,
> {
    s.update(index_of(s, id), with_remote(entry_of(s, id), d))
}

/// The registry after a tunnel channel is registered for the named
/// peer.
pub open spec fn register_channel_spec(s: Seq<EntryModel>, id: Seq<char>) -> Seq<EntryModel> {
    s.update(index_of(s, id), with_channel(entry_of(s, id)))
}

/// The registry after the named peer moves to the given connectivity
/// state.
pub open spec fn set_state_spec(s: Seq<EntryModel>, id: Seq<char>, st: ConnState) -> Seq<
    EntryModel,
> {
    s.update(index_of(s, id), with_state(entry_of(s, id), st))
}

/// A found position carrying `id` is the position [`index_of`] names.
proof fn lemma_found_index(s: Seq<EntryModel>, id: Seq<char>, i: int)
    requires
        registry_wf(s),
        0 <= i < s.len(),
        s[i].id == id,
    ensures
        has_id(s, id),
        index_of(s, id) == i,
{
    assert(has_id(s, id));
    let j = index_of(s, id);
    assert(0 <= j < s.len() && s[j].id == id);
    if i < j {
        assert(s[i].id != s[j].id);
    } else if j < i {
        assert(s[j].id != s[i].id);
    }
}

/// Replacing an entry by one of the same name keeps names unique.
proof fn lemma_wf_update(s: Seq<EntryModel>, i: int, e: EntryModel)
    requires
        registry_wf(s),
        0 <= i < s.len(),
        s[i].id == e.id,
    ensures
        registry_wf(s.update(i, e)),
{
    let t = s.update(i, e);
    assert forall|a: int, b: int| 0 <= a < b < t.len() implies t[a].id != t[b].id by {
        assert(s[a].id != s[b].id);
    }
}

/// Appending an entry under a fresh name keeps names unique.
proof fn lemma_wf_push(s: Seq<EntryModel>, e: EntryModel)
    requires
        registry_wf(s),
        !has_id(s, e.id),
    ensures
        registry_wf(s.push(e)),
{
    let t = s.push(e);
    assert forall|a: int, b: int| 0 <= a < b < t.len() implies t[a].id != t[b].id by {
        if b < s.len() {
            assert(s[a].id != s[b].id);
        } else {
            assert(t[b] == e);
            if s[a].id == e.id {
                assert(has_id(s, e.id));
            }
        }
    }
}

/// Uniqueness is an invariant of registration: an upsert into a
/// registry whose names are unique leaves them unique, whether it
/// replaces or appends.
pub proof fn lemma_registration_preserves_uniqueness(s: Seq<EntryModel>, e: EntryModel)
    requires
        registry_wf(s),
    ensures
        registry_wf(upsert_spec(s, e)),
{
    if has_id(s, e.id) {
        let i = index_of(s, e.id);
        assert(0 <= i < s.len() && s[i].id == e.id);
        lemma_wf_update(s, i, e);
    } else {
        lemma_wf_push(s, e);
    }
}

/// After an upsert, the upserted entry is what its name resolves to,
/// and names stay unique.
pub proof fn lemma_upsert_entry(s: Seq<EntryModel>, e: EntryModel)
    requires
        registry_wf(s),
    ensures
        registry_wf(upsert_spec(s, e)),
        has_id(upsert_spec(s, e), e.id),
        entry_of(upsert_spec(s, e), e.id) == e,
{
    lemma_registration_preserves_uniqueness(s, e);
    let t = upsert_spec(s, e);
    if has_id(s, e.id) {
        let i = index_of(s, e.id);
        assert(0 <= i < s.len() && s[i].id == e.id);
        assert(t[i] == e);
        lemma_found_index(t, e.id, i);
    } else {
        assert(t[s.len() as int] == e);
        lemma_found_index(t, e.id, s.len() as int);
    }
}

/// Round trip through the signaling exchange: the offer descriptor an
/// initiator publishes over some session payload, transmitted out of
/// band and fed into a responder's acceptance, decodes back exactly
/// and is stored there as that connection's remote description,
/// matching the published parameters field for field.
pub proof fn lemma_signaling_round_trip(s: Seq<EntryModel>, peer_id: Seq<char>, sdp: Seq<u8>)
    requires
        registry_wf(s),
    ensures
        ({
            let d = DescModel { kind: DescriptorKind::Offer, sdp };
            &&& decode_spec(encode_spec(d)) == Some(d)
            &&& entry_of(upsert_spec(s, responder_entry(peer_id, Some(d))), peer_id).remote
                == Some(d)
        }),
{
    let d = DescModel { kind: DescriptorKind::Offer, sdp };
    crate::codec::lemma_descriptor_round_trip(d);
    lemma_upsert_entry(s, responder_entry(peer_id, Some(d)));
}

/// The authoritative map from peer identity to transport bookkeeping
/// and tunnel-channel registration.
pub struct PeerManager {
    peers: Vec<PeerEntry>,
}

impl View for PeerManager {
    type V = Seq<EntryModel>;

    closed spec fn view(&self) -> Seq<EntryModel> {
        self.peers@.map_values(|p: PeerEntry| p@)
    }
}

impl PeerManager {
    /// No two registered peers share a name.
    pub open spec fn wf(&self) -> bool {
        registry_wf(self@)
    }

    /// An empty registry.
    pub fn new() -> (r: Self)
        ensures
            r@ == Seq::<EntryModel>::empty(),
            r.wf(),
    {
        let r = PeerManager { peers: Vec::new() };
        proof {
            assert(r@ =~= Seq::<EntryModel>::empty());
        }
        r
    }

    /// How many peers are registered.
    pub fn peer_count(&self) -> (r: usize)
        ensures
            r == self@.len(),
    {
        self.peers.len()
    }

    /// The position of the named peer, if registered.
    fn find(&self, peer_id: &String) -> (r: Option<usize>)
        ensures
            match r {
                Some(i) => 0 <= i < self@.len() && self@[i as int].id == peer_id@,
                None => !has_id(self@, peer_id@),
            },
    {
        let mut i: usize = 0;
        while i < self.peers.len()
            invariant
                i <= self.peers.len(),
                forall|k: int| 0 <= k < i ==> self@[k].id != peer_id@,
            decreases self.peers.len() - i,
        {
            if self.peers[i].id == *peer_id {
                return Some(i);
            }
            i = i + 1;
        }
        None
    }

    /// Membership test callers use to reject duplicate names before
    /// creating a connection.
    pub fn has_peer(&self, peer_id: &String) -> (r: bool)
        ensures
            r == has_id(self@, peer_id@),
    {
        match self.find(peer_id) {
            Some(_) => true,
            None => false,
        }
    }

    /// The duplicate-name check of the signaling flows.  Callers run
    /// it before registering; it is a separate operation from the
    /// registration itself, so two racing flows can both pass it and
    /// the later registration then silently overwrites the earlier.
    pub fn check_new_peer(&self, peer_id: &String) -> (r: Result<(), RouterError>)
        ensures
            r is Ok <==> !has_id(self@, peer_id@),
            r is Err ==> r->Err_0 == RouterError::DuplicatePeer,
    {
        if self.has_peer(peer_id) {
            Err(RouterError::DuplicatePeer)
        } else {
            Ok(())
        }
    }

    /// Replaces the entry at a known position.
    fn replace_at(&mut self, i: usize, e: PeerEntry)
        requires
            i < old(self)@.len(),
        ensures
            final(self)@ == old(self)@.update(i as int, e@),
    {
        let ghost em = e@;
        let _ = self.peers.remove(i);
        self.peers.insert(i, e);
        proof {
            assert(self@ =~= old(self)@.update(i as int, em));
        }
    }

    /// Unconditional upsert: replaces any entry of the same name,
    /// else appends.
    fn upsert(&mut self, entry: PeerEntry)
        requires
            old(self).wf(),
        ensures
            final(self).wf(),
            final(self)@ == upsert_spec(old(self)@, entry@),
    {
        let ghost em = entry@;
        proof {
            lemma_registration_preserves_uniqueness(old(self)@, em);
        }
        match self.find(&entry.id) {
            Some(i) => {
                proof {
                    lemma_found_index(self@, em.id, i as int);
                }
                self.replace_at(i, entry);
            },
            None => {
                self.peers.push(entry);
                proof {
                    assert(self@ =~= old(self)@.push(em));
                }
            },
        }
    }

    /// Initiator-side registration: records a fresh connection under
    /// the given name, in the created state, before the transport
    /// engine generates its offer.  A name already present is silently
    /// overwritten; the duplicate check is [`Self::check_new_peer`],
    /// run separately by the caller.
    pub fn create_offer(&mut self, peer_id: String)
        requires
            old(self).wf(),
        ensures
            final(self).wf(),
            final(self)@ == upsert_spec(old(self)@, initiator_entry(peer_id@)),
    {
        self.upsert(
            PeerEntry {
                id: peer_id,
                role: Role::Initiator,
                state: ConnState::Created,
                has_channel: false,
                local: None,
                remote: None,
            },
        );
    }

    /// Responder-side registration: records a fresh connection under
    /// the given name first, then decodes the remote offer.  A
    /// well-formed offer becomes the connection's remote description;
    /// a malformed one is reported, and the freshly registered entry
    /// remains, with no remote description and no partial-state
    /// repair — the name stays taken until the operator discards it.
    /// A name already present is silently overwritten; the duplicate
    /// check is [`Self::check_new_peer`], run separately by the
    /// caller.
    pub fn accept_offer(&mut self, peer_id: String, offer: &Vec<u8>) -> (r: Result<
        (),
        RouterError,
    >)
        requires
            old(self).wf(),
        ensures
            final(self).wf(),
            final(self)@ == upsert_spec(
                old(self)@,
                responder_entry(peer_id@, decode_spec(offer@)),
            ),
            r is Ok <==> decode_spec(offer@) is Some,
            r is Err ==> r->Err_0 == RouterError::MalformedDescriptor,
    {
        let (remote, result): (Option<ConnectionDescriptor>, Result<(), RouterError>) = match decode_descriptor(
            offer,
        ) {
            Ok(d) => (Some(d), Ok(())),
            Err(e) => (None, Err(e)),
        };
        self.upsert(
            PeerEntry {
                id: peer_id,
                role: Role::Responder,
                state: ConnState::Created,
                has_channel: false,
                local: None,
                remote,
            },
        );
        result
    }

    /// Records the named peer's generated session payload and returns
    /// the serialized descriptor to hand out of band: an offer for an
    /// initiator, an answer for a responder.  A descriptor is produced
    /// at most once per role per connection, so the peer must not have
    /// one yet.  The caller must only invoke this once candidate
    /// discovery for the connection has finished: a descriptor
    /// published earlier names an unreachable peer.
    pub fn complete_local_description(&mut self, peer_id: &String, sdp: Vec<u8>) -> (r: Result<
        Vec<u8>,
        RouterError,
    >)
        requires
            old(self).wf(),
            has_id(old(self)@, peer_id@) ==> entry_of(old(self)@, peer_id@).local is None,
        ensures
            final(self).wf(),
            !has_id(old(self)@, peer_id@) ==> r == Err::<Vec<u8>, RouterError>(
                RouterError::PeerNotFound,
            ) && final(self)@ == old(self)@,
            has_id(old(self)@, peer_id@) ==> r is Ok && r->Ok_0@ == encode_spec(
                DescModel { kind: kind_of(entry_of(old(self)@, peer_id@).role), sdp: sdp@ },
            ) && final(self)@ == complete_spec(old(self)@, peer_id@, sdp@),
    {
        let i = match self.find(peer_id) {
            Some(i) => i,
            None => {
                return Err(RouterError::PeerNotFound);
            },
        };
        proof {
            lemma_found_index(self@, peer_id@, i as int);
        }
        let mut e = self.peers.remove(i);
        proof {
            assert(self@ =~= old(self)@.remove(i as int));
        }
        let kind = match e.role {
            Role::Initiator => DescriptorKind::Offer,
            Role::Responder => DescriptorKind::Answer,
        };
        let desc = ConnectionDescriptor { kind, sdp };
        let encoded = encode_descriptor(&desc);
        e.local = Some(desc);
        e.state = match e.role {
            Role::Initiator => ConnState::AwaitingRemoteDescriptor,
            Role::Responder => ConnState::Negotiating,
        };
        let ghost em = e@;
        self.peers.insert(i, e);
        proof {
            assert(self@ =~= old(self)@.remove(i as int).insert(i as int, em));
            assert(self@ =~= complete_spec(old(self)@, peer_id@, sdp@));
            lemma_wf_update(old(self)@, i as int, em);
            assert(old(self)@.update(i as int, em) =~= self@);
        }
        Ok(encoded)
    }

    /// Applies a remote answer to the named initiator connection: the
    /// follow-up signaling step after the offer descriptor came back
    /// answered.  An unknown name or a malformed answer is rejected
    /// and nothing changes.
    pub fn set_answer_as_offerer(&mut self, peer_id: &String, answer: &Vec<u8>) -> (r: Result<
        (),
        RouterError,
    >)
        requires
            old(self).wf(),
        ensures
            final(self).wf(),
            !has_id(old(self)@, peer_id@) ==> r == Err::<(), RouterError>(
                RouterError::PeerNotFound,
            ) && final(self)@ == old(self)@,
            has_id(old(self)@, peer_id@) ==> match decode_spec(answer@) {
                Some(d) => r is Ok && final(self)@ == apply_answer_spec(old(self)@, peer_id@, d),
                None => r == Err::<(), RouterError>(RouterError::MalformedDescriptor)
                    && final(self)@ == old(self)@,
            },
    {
        let i = match self.find(peer_id) {
            Some(i) => i,
            None => {
                return Err(RouterError::PeerNotFound);
            },
        };
        proof {
            lemma_found_index(self@, peer_id@, i as int);
        }
        let d = match decode_descriptor(answer) {
            Ok(d) => d,
            Err(e) => {
                return Err(e);
            },
        };
        let mut e = self.peers.remove(i);
        proof {
            assert(self@ =~= old(self)@.remove(i as int));
        }
        e.remote = Some(d);
        e.state = ConnState::Negotiating;
        let ghost em = e@;
        self.peers.insert(i, e);
        proof {
            assert(self@ =~= old(self)@.remove(i as int).insert(i as int, em));
            assert(self@ =~= apply_answer_spec(old(self)@, peer_id@, decode_spec(answer@)->0));
            lemma_wf_update(old(self)@, i as int, em);
            assert(old(self)@.update(i as int, em) =~= self@);
        }
        Ok(())
    }

    /// Registers the named peer's tunnel channel: an initiator
    /// pre-creates the channel at connection creation, a responder
    /// registers it when the peer-opened channel appears.
    pub fn register_channel(&mut self, peer_id: &String) -> (r: Result<(), RouterError>)
        requires
            old(self).wf(),
        ensures
            final(self).wf(),
            !has_id(old(self)@, peer_id@) ==> r == Err::<(), RouterError>(
                RouterError::PeerNotFound,
            ) && final(self)@ == old(self)@,
            has_id(old(self)@, peer_id@) ==> r is Ok && final(self)@ == register_channel_spec(
                old(self)@,
                peer_id@,
            ),
    {
        let i = match self.find(peer_id) {
            Some(i) => i,
            None => {
                return Err(RouterError::PeerNotFound);
            },
        };
        proof {
            lemma_found_index(self@, peer_id@, i as int);
        }
        let mut e = self.peers.remove(i);
        proof {
            assert(self@ =~= old(self)@.remove(i as int));
        }
        e.has_channel = true;
        let ghost em = e@;
        self.peers.insert(i, e);
        proof {
            assert(self@ =~= old(self)@.remove(i as int).insert(i as int, em));
            assert(self@ =~= register_channel_spec(old(self)@, peer_id@));
            lemma_wf_update(old(self)@, i as int, em);
            assert(old(self)@.update(i as int, em) =~= self@);
        }
        Ok(())
    }

    /// Moves the named peer to the given connectivity state; reports
    /// whether the peer was found.  Reserved to the coordination loop,
    /// the sole mutator of connectivity state.
    pub(crate) fn set_state(&mut self, peer_id: &String, st: ConnState) -> (found: bool)
        requires
            old(self).wf(),
        ensures
            final(self).wf(),
            found == has_id(old(self)@, peer_id@),
            !found ==> final(self)@ == old(self)@,
            found ==> final(self)@ == set_state_spec(old(self)@, peer_id@, st),
    {
        let i = match self.find(peer_id) {
            Some(i) => i,
            None => {
                return false;
            },
        };
        proof {
            lemma_found_index(self@, peer_id@, i as int);
        }
        let mut e = self.peers.remove(i);
        proof {
            assert(self@ =~= old(self)@.remove(i as int));
        }
        e.state = st;
        let ghost em = e@;
        self.peers.insert(i, e);
        proof {
            assert(self@ =~= old(self)@.remove(i as int).insert(i as int, em));
            assert(self@ =~= set_state_spec(old(self)@, peer_id@, st));
            lemma_wf_update(old(self)@, i as int, em);
            assert(old(self)@.update(i as int, em) =~= self@);
        }
        true
    }

    /// Whether the named peer has already had its local descriptor
    /// generated.  Descriptor generation happens at most once per role
    /// per connection, so callers test this before recording one.
    pub fn local_described(&self, peer_id: &String) -> (r: bool)
        requires
            self.wf(),
        ensures
            r == (has_id(self@, peer_id@) && entry_of(self@, peer_id@).local is Some),
    {
        match self.find(peer_id) {
            Some(i) => {
                proof {
                    lemma_found_index(self@, peer_id@, i as int);
                }
                self.peers[i].local.is_some()
            },
            None => false,
        }
    }

    /// The connectivity state of the named peer, if registered.
    pub fn get_state(&self, peer_id: &String) -> (r: Option<ConnState>)
        requires
            self.wf(),
        ensures
            match r {
                Some(st) => has_id(self@, peer_id@) && entry_of(self@, peer_id@).state == st,
                None => !has_id(self@, peer_id@),
            },
    {
        match self.find(peer_id) {
            Some(i) => {
                proof {
                    lemma_found_index(self@, peer_id@, i as int);
                }
                Some(self.peers[i].state)
            },
            None => None,
        }
    }

    /// The remote description recorded for the named peer, if any.
    pub fn remote_description(&self, peer_id: &String) -> (r: Option<&ConnectionDescriptor>)
        requires
            self.wf(),
        ensures
            match r {
                Some(d) => has_id(self@, peer_id@) && entry_of(self@, peer_id@).remote == Some(d@),
                None => !has_id(self@, peer_id@) || entry_of(self@, peer_id@).remote is None,
            },
    {
        match self.find(peer_id) {
            Some(i) => {
                proof {
                    lemma_found_index(self@, peer_id@, i as int);
                }
                self.peers[i].remote.as_ref()
            },
            None => None,
        }
    }
}

/// One planned delivery: the frame to hand to the named peer's tunnel
/// channel.
pub struct OutboundFrame {
    pub peer_id: String,
    pub payload: Vec<u8>,
}

/// The mathematical value of an [`OutboundFrame`].
#[verifier::ext_equal]
pub struct FrameModel {
    pub peer_id: Seq<char>,
    pub payload: Seq<u8>,
}

impl View for OutboundFrame {
    type V = FrameModel;

    open spec fn view(&self) -> FrameModel {
        FrameModel { peer_id: self.peer_id@, payload: self.payload@ }
    }
}

/// The fan-out plan for one uplink frame: one delivery, carrying the
/// frame unchanged, for each peer with a registered tunnel channel,
/// in registry order.
pub open spec fn broadcast_plan(s: Seq<EntryModel>, pkt: Seq<u8>) -> Seq<FrameModel>
    decreases s.len(),
{
    if s.len() == 0 {
        Seq::empty()
    } else {
        broadcast_plan(s.drop_last(), pkt) + (if s.last().has_channel {
            seq![FrameModel { peer_id: s.last().id, payload: pkt }]
        } else {
            Seq::empty()
        })
    }
}

/// How many registered peers have a tunnel channel.
pub open spec fn channel_count(s: Seq<EntryModel>) -> nat
    decreases s.len(),
{
    if s.len() == 0 {
        0
    } else {
        channel_count(s.drop_last()) + (if s.last().has_channel {
            1nat
        } else {
            0nat
        })
    }
}

/// Broadcast completeness: one uplink frame is planned for delivery
/// exactly once per peer with a registered channel, each copy
/// identical to the frame; the deliveries are independent entries of
/// the plan, so one failed send costs only its own entry.
pub proof fn lemma_broadcast_completeness(s: Seq<EntryModel>, pkt: Seq<u8>)
    ensures
        broadcast_plan(s, pkt).len() == channel_count(s),
        forall|k: int|
            0 <= k < broadcast_plan(s, pkt).len() ==> #[trigger] broadcast_plan(s, pkt)[k].payload
                == pkt,
        forall|i: int|
            0 <= i < s.len() && s[i].has_channel ==> exists|k: int|
                0 <= k < broadcast_plan(s, pkt).len() && #[trigger] broadcast_plan(
                    s,
                    pkt,
                )[k].peer_id == s[i].id,
    decreases s.len(),
{
    if s.len() > 0 {
        lemma_broadcast_completeness(s.drop_last(), pkt);
        let prev = broadcast_plan(s.drop_last(), pkt);
        let whole = broadcast_plan(s, pkt);
        assert forall|i: int| 0 <= i < s.len() && s[i].has_channel implies exists|k: int|
            0 <= k < whole.len() && #[trigger] whole[k].peer_id == s[i].id by {
            if i < s.len() - 1 {
                assert(s.drop_last()[i] == s[i]);
                let k = choose|k: int|
                    0 <= k < prev.len() && #[trigger] prev[k].peer_id == s.drop_last()[i].id;
                assert(whole[k].peer_id == s[i].id);
            } else {
                assert(whole[whole.len() - 1].peer_id == s[i].id);
            }
        }
    }
}

impl PeerManager {
    /// Plans the fan-out of one uplink frame: an identical copy for
    /// every registered tunnel channel.  The surrounding program
    /// performs the sends one by one; a failure there is logged and
    /// costs only that delivery, never the rest of the plan.
    pub fn route_and_send(&self, pkt: &Vec<u8>) -> (r: Vec<OutboundFrame>)
        ensures
            r@.map_values(|f: OutboundFrame| f@) == broadcast_plan(self@, pkt@),
    {
        let mut r: Vec<OutboundFrame> = Vec::new();
        let mut i: usize = 0;
        while i < self.peers.len()
            invariant
                i <= self.peers.len(),
                r@.map_values(|f: OutboundFrame| f@) == broadcast_plan(self@.take(i as int), pkt@),
            decreases self.peers.len() - i,
        {
            proof {
                assert(self@.take(i as int + 1).drop_last() =~= self@.take(i as int));
                assert(self@.take(i as int + 1).last() == self@[i as int]);
            }
            if self.peers[i].has_channel {
                let id = self.peers[i].id.clone();
                let payload = copy_bytes(pkt);
                let f = OutboundFrame { peer_id: id, payload };
                let ghost fm = f@;
                r.push(f);
                proof {
                    assert(r@.map_values(|f: OutboundFrame| f@) =~= broadcast_plan(
                        self@.take(i as int),
                        pkt@,
                    ).push(fm));
                    assert(broadcast_plan(self@.take(i as int + 1), pkt@) =~= broadcast_plan(
                        self@.take(i as int),
                        pkt@,
                    ).push(FrameModel { peer_id: self@[i as int].id, payload: pkt@ }));
                }
            } else {
                proof {
                    assert(broadcast_plan(self@.take(i as int + 1), pkt@) =~= broadcast_plan(
                        self@.take(i as int),
                        pkt@,
                    ));
                }
            }
            i = i + 1;
        }
        proof {
            assert(self@.take(self@.len() as int) =~= self@);
        }
        r
    }
}

/// Copies a frame byte for byte.
fn copy_bytes(src: &Vec<u8>) -> (r: Vec<u8>)
    ensures
        r@ == src@,
{
    let mut r: Vec<u8> = Vec::new();
    let mut i: usize = 0;
    while i < src.len()
        invariant
            i <= src@.len(),
            r@ == src@.take(i as int),
        decreases src@.len() - i,
    {
        r.push(src[i]);
        proof {
            assert(src@.take(i as int + 1) =~= src@.take(i as int).push(src@[i as int]));
        }
        i = i + 1;
    }
    proof {
        assert(src@.take(src@.len() as int) =~= src@);
    }
    r
}

} // verus!
