//! Identifiers of peers in the network.

use vstd::prelude::*;
use crate::ident::{Uuid, uuid_string, uuid_text};

verus! {

/// The id values of a sequence of peers, in order.
pub open spec fn peer_ids(s: Seq<PeerId>) -> Seq<Uuid> {
    s.map_values(|p: PeerId| p.0)
}

/// A peer in the P2P network, identified by the value of its UUID.
#[derive(Debug, Clone, Copy, PartialEq, Eq, Hash, Structural)]
pub struct PeerId(pub Uuid);

impl PeerId {
    pub fn new(id: Uuid) -> (p: Self)
        ensures
            p.0 == id,
    {
        PeerId(id)
    }

    /// The id as hyphenated lower-case text.
    pub fn as_str(&self) -> (s: String)
        ensures
            s@ == uuid_text(self.0),
    {
        uuid_string(self.0)
    }

    /// The display text: the id as hyphenated lower-case text.
    pub fn to_string(&self) -> (s: String)
        ensures
            s@ == uuid_text(self.0),
    {
        uuid_string(self.0)
    }

    pub fn inner(&self) -> (id: Uuid)
        ensures
            id == self.0,
    {
        self.0
    }
}

} // verus!
