//! Peer-connection lifecycle manager and packet fan-out router.
//!
//! The library is the decision core of a mesh bridge between a local
//! virtual network interface and a set of directly connected remote
//! peers: it tracks peer identity and connection state, drives the
//! two-step manual-signaling exchange of connection descriptors, and
//! plans the fan-out of local frames to every registered tunnel
//! channel.  The asynchronous transport engine, the interface driver
//! and the command front-end live outside the library and call into
//! it with plain values.

pub mod codec;
pub mod errors;
pub mod event;
pub mod peer;
pub mod router;
