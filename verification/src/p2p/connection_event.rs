//! Events of a P2P connection.

use vstd::prelude::*;
use crate::ident::Uuid;
use crate::p2p::peer::PeerId;

verus! {

/// What a P2P connection reports.
#[derive(Debug, Clone, PartialEq, Eq)]
pub enum ConnectionEvent {
    /// A new peer connected.
    PeerConnected(PeerId),
    /// A peer disconnected; its grace period started.
    PeerDisconnected(PeerId),
    /// A peer's grace period ran out.
    PeerTimedOut { peer_id: PeerId, participant_id: Option<Uuid>, was_host: bool },
    /// Bytes arrived from a peer.
    MessageReceived { from: PeerId, data: Vec<u8> },
}

} // verus!
