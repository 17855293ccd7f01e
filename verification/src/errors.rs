use vstd::prelude::*;

verus! {

/// The error taxonomy of the router core.
///
/// The first three variants are decided by the library itself; the
/// last three name failures of the transport engine, the local
/// interface and a remote send, which the surrounding program maps
/// onto this type when an outside call fails.
#[derive(Clone, Copy, PartialEq, Eq, Structural, Debug)]
pub enum RouterError {
    /// A peer with the requested name is already registered.
    DuplicatePeer,
    /// No peer with the requested name is registered.
    PeerNotFound,
    /// A connection descriptor could not be decoded.
    MalformedDescriptor,
    /// The transport engine failed while negotiating a connection.
    TransportNegotiationFailure,
    /// Reading from or writing to the local interface failed.
    LocalInterfaceIOFailure,
    /// Sending a frame to one remote peer failed.
    RemoteSendFailure,
}

impl RouterError {
    /// A short human-readable description, for reporting at the call
    /// site.
    pub fn describe(&self) -> (r: String)
        ensures
            r@ == match self {
                RouterError::DuplicatePeer => "duplicate peer"@,
                RouterError::PeerNotFound => "peer not found"@,
                RouterError::MalformedDescriptor => "malformed descriptor"@,
                RouterError::TransportNegotiationFailure => "transport negotiation failure"@,
                RouterError::LocalInterfaceIOFailure => "local interface I/O failure"@,
                RouterError::RemoteSendFailure => "remote send failure"@,
            },
    {
        match self {
            RouterError::DuplicatePeer => String::from_str("duplicate peer"),
            RouterError::PeerNotFound => String::from_str("peer not found"),
            RouterError::MalformedDescriptor => String::from_str("malformed descriptor"),
            RouterError::TransportNegotiationFailure => String::from_str(
                "transport negotiation failure",
            ),
            RouterError::LocalInterfaceIOFailure => String::from_str("local interface I/O failure"),
            RouterError::RemoteSendFailure => String::from_str("remote send failure"),
        }
    }
}

} // verus!
