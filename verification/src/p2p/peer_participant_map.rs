//! The one-to-one mapping between peers and participants.

use vstd::prelude::*;
use std::collections::HashMap;
use crate::ident::Uuid;
use crate::p2p::peer::{PeerId, peer_ids};

verus! {

broadcast use vstd::std_specs::hash::group_hash_axioms;

/// What the mapping is: from peer to participant, and back.
pub struct PeerParticipantMapView {
    pub peer_to_participant: Map<Uuid, Uuid>,
    pub participant_to_peer: Map<Uuid, Uuid>,
}

impl PeerParticipantMapView {
    /// The two directions agree: a peer maps to a participant exactly when
    /// that participant maps back to the peer.
    pub open spec fn bijective(self) -> bool {
        &&& forall|p: Uuid|
            #[trigger] self.peer_to_participant.contains_key(p) ==> self.participant_to_peer.contains_key(
                self.peer_to_participant[p],
            ) && self.participant_to_peer[self.peer_to_participant[p]] == p
        &&& forall|q: Uuid|
            #[trigger] self.participant_to_peer.contains_key(q) ==> self.peer_to_participant.contains_key(
                self.participant_to_peer[q],
            ) && self.peer_to_participant[self.participant_to_peer[q]] == q
    }

    /// The mapping after `register(peer, participant)`: any earlier mapping
    /// of the peer and of the participant is dropped, then the pair is mapped.
    pub open spec fn register(self, peer: Uuid, participant: Uuid) -> PeerParticipantMapView {
        let q2p1 = if self.peer_to_participant.contains_key(peer) {
            self.participant_to_peer.remove(self.peer_to_participant[peer])
        } else {
            self.participant_to_peer
        };
        let p2q1 = if q2p1.contains_key(participant) {
            self.peer_to_participant.remove(q2p1[participant])
        } else {
            self.peer_to_participant
        };
        PeerParticipantMapView {
            peer_to_participant: p2q1.insert(peer, participant),
            participant_to_peer: q2p1.insert(participant, peer),
        }
    }
}

/// Enforces a one-to-one mapping between peers and participants, kept in
/// both directions: every mapped peer has exactly one participant and every
/// mapped participant exactly one peer.
#[derive(Debug)]
pub struct PeerParticipantMap {
    peer_to_participant: HashMap<Uuid, Uuid>,
    participant_to_peer: HashMap<Uuid, Uuid>,
}

impl View for PeerParticipantMap {
    type V = PeerParticipantMapView;

    closed spec fn view(&self) -> PeerParticipantMapView {
        PeerParticipantMapView {
            peer_to_participant: self.peer_to_participant@,
            participant_to_peer: self.participant_to_peer@,
        }
    }
}

impl Default for PeerParticipantMap {
    fn default() -> (m: Self)
        ensures
            m@.peer_to_participant == Map::<Uuid, Uuid>::empty(),
            m@.participant_to_peer == Map::<Uuid, Uuid>::empty(),
            m@.bijective(),
    {
        Self::new()
    }
}

impl Clone for PeerParticipantMap {
    fn clone(&self) -> (m: Self)
        ensures
            m@ == self@,
    {
        PeerParticipantMap {
            peer_to_participant: self.peer_to_participant.clone(),
            participant_to_peer: self.participant_to_peer.clone(),
        }
    }
}

impl PeerParticipantMap {
    /// An empty mapping.
    pub fn new() -> (m: Self)
        ensures
            m@.peer_to_participant == Map::<Uuid, Uuid>::empty(),
            m@.participant_to_peer == Map::<Uuid, Uuid>::empty(),
            m@.bijective(),
    {
        PeerParticipantMap { peer_to_participant: HashMap::new(), participant_to_peer: HashMap::new() }
    }

    /// Maps `peer_id` and `participant_id` to each other; earlier mappings of
    /// either are removed first.
    pub fn register(&mut self, peer_id: PeerId, participant_id: Uuid)
        ensures
            final(self)@ == old(self)@.register(peer_id.0, participant_id),
    {
        let peer = peer_id.0;
        match self.peer_to_participant.get(&peer) {
            Some(old_participant) => {
                let q = *old_participant;
                self.participant_to_peer.remove(&q);
            },
            None => {},
        }
        match self.participant_to_peer.get(&participant_id) {
            Some(old_peer) => {
                let p = *old_peer;
                self.peer_to_participant.remove(&p);
            },
            None => {},
        }
        self.peer_to_participant.insert(peer, participant_id);
        self.participant_to_peer.insert(participant_id, peer);
    }

    /// Removes the mapping of a peer, answering its participant if it had one.
    pub fn remove_by_peer(&mut self, peer_id: &PeerId) -> (r: Option<Uuid>)
        ensures
            match r {
                Some(q) => old(self)@.peer_to_participant.contains_key(peer_id.0)
                    && q == old(self)@.peer_to_participant[peer_id.0] && final(self)@ == (
                PeerParticipantMapView {
                    peer_to_participant: old(self)@.peer_to_participant.remove(peer_id.0),
                    participant_to_peer: old(self)@.participant_to_peer.remove(q),
                }),
                None => !old(self)@.peer_to_participant.contains_key(peer_id.0) && final(self)@
                    == old(self)@,
            },
    {
        let ghost before = self@;
        match self.peer_to_participant.remove(&peer_id.0) {
            Some(participant_id) => {
                self.participant_to_peer.remove(&participant_id);
                Some(participant_id)
            },
            None => {
                proof {
                    assert(self.peer_to_participant@ =~= before.peer_to_participant);
                }
                None
            },
        }
    }

    /// Removes the mapping of a participant, answering its peer if it had one.
    pub fn remove_by_participant(&mut self, participant_id: &Uuid) -> (r: Option<PeerId>)
        ensures
            match r {
                Some(p) => old(self)@.participant_to_peer.contains_key(*participant_id)
                    && p.0 == old(self)@.participant_to_peer[*participant_id] && final(self)@ == (
                PeerParticipantMapView {
                    peer_to_participant: old(self)@.peer_to_participant.remove(p.0),
                    participant_to_peer: old(self)@.participant_to_peer.remove(*participant_id),
                }),
                None => !old(self)@.participant_to_peer.contains_key(*participant_id)
                    && final(self)@ == old(self)@,
            },
    {
        let ghost before = self@;
        match self.participant_to_peer.remove(participant_id) {
            Some(peer) => {
                self.peer_to_participant.remove(&peer);
                Some(PeerId(peer))
            },
            None => {
                proof {
                    assert(self.participant_to_peer@ =~= before.participant_to_peer);
                }
                None
            },
        }
    }

    /// The participant of a peer, if mapped.
    pub fn get_participant(&self, peer_id: &PeerId) -> (r: Option<Uuid>)
        ensures
            r == (if self@.peer_to_participant.contains_key(peer_id.0) {
                Some(self@.peer_to_participant[peer_id.0])
            } else {
                None
            }),
    {
        match self.peer_to_participant.get(&peer_id.0) {
            Some(q) => Some(*q),
            None => None,
        }
    }

    /// The peer of a participant, if mapped.
    pub fn get_peer(&self, participant_id: &Uuid) -> (r: Option<PeerId>)
        ensures
            r == (if self@.participant_to_peer.contains_key(*participant_id) {
                Some(PeerId(self@.participant_to_peer[*participant_id]))
            } else {
                None
            }),
    {
        match self.participant_to_peer.get(participant_id) {
            Some(p) => Some(PeerId(*p)),
            None => None,
        }
    }

    pub fn contains_peer(&self, peer_id: &PeerId) -> (b: bool)
        ensures
            b == self@.peer_to_participant.contains_key(peer_id.0),
    {
        self.peer_to_participant.contains_key(&peer_id.0)
    }

    pub fn contains_participant(&self, participant_id: &Uuid) -> (b: bool)
        ensures
            b == self@.participant_to_peer.contains_key(*participant_id),
    {
        self.participant_to_peer.contains_key(participant_id)
    }

    /// The mapped peers, each once.
    pub fn all_peers(&self) -> (v: Vec<PeerId>)
        ensures
            peer_ids(v@).no_duplicates(),
            peer_ids(v@).to_set() == self@.peer_to_participant.dom(),
    {
        let keys = crate::keys::map_keys(&self.peer_to_participant);
        let mut v: Vec<PeerId> = Vec::new();
        let mut i: usize = 0;
        while i < keys.len()
            invariant
                i <= keys@.len(),
                v@.len() == i,
                forall|j: int| 0 <= j < i ==> (#[trigger] v@[j]).0 == keys@[j],
            decreases keys.len() - i,
        {
            v.push(PeerId(keys[i]));
            i += 1;
        }
        proof {
            assert(peer_ids(v@) =~= keys@);
        }
        v
    }

    /// The mapped participants, each once.
    pub fn all_participants(&self) -> (v: Vec<Uuid>)
        ensures
            v@.no_duplicates(),
            v@.to_set() == self@.participant_to_peer.dom(),
    {
        crate::keys::map_keys(&self.participant_to_peer)
    }

    /// How many pairs are mapped: as many as there are mapped peers, and,
    /// while the two directions agree, mapped participants.
    pub fn len(&self) -> (n: usize)
        ensures
            n == self@.peer_to_participant.dom().len(),
            self@.bijective() ==> n == self@.participant_to_peer.dom().len(),
    {
        proof {
            if self@.bijective() {
                lemma_one_to_one_sizes(self@);
            }
        }
        self.peer_to_participant.len()
    }

    pub fn is_empty(&self) -> (b: bool)
        ensures
            b == (self@.peer_to_participant.dom().len() == 0),
    {
        self.peer_to_participant.len() == 0
    }

    /// Removes every mapping.
    pub fn clear(&mut self)
        ensures
            final(self)@.peer_to_participant == Map::<Uuid, Uuid>::empty(),
            final(self)@.participant_to_peer == Map::<Uuid, Uuid>::empty(),
    {
        self.peer_to_participant.clear();
        self.participant_to_peer.clear();
    }
}

/// Registering keeps the two directions in agreement, and afterwards the
/// peer and the participant map to each other.
pub proof fn lemma_register_keeps_one_to_one(m: PeerParticipantMapView, peer: Uuid, participant: Uuid)
    requires
        m.bijective(),
    ensures
        m.register(peer, participant).bijective(),
        m.register(peer, participant).peer_to_participant[peer] == participant,
        m.register(peer, participant).participant_to_peer[participant] == peer,
{
    let r = m.register(peer, participant);
    assert forall|p: Uuid| #[trigger] r.peer_to_participant.contains_key(p) implies r.participant_to_peer.contains_key(
        r.peer_to_participant[p],
    ) && r.participant_to_peer[r.peer_to_participant[p]] == p by {
        if p != peer {
            assert(m.peer_to_participant.contains_key(p));
            let q = m.peer_to_participant[p];
            assert(m.participant_to_peer[q] == p);
        }
    }
    assert forall|q: Uuid| #[trigger] r.participant_to_peer.contains_key(q) implies r.peer_to_participant.contains_key(
        r.participant_to_peer[q],
    ) && r.peer_to_participant[r.participant_to_peer[q]] == q by {
        if q != participant {
            assert(m.participant_to_peer.contains_key(q));
            let p = m.participant_to_peer[q];
            assert(m.peer_to_participant[p] == q);
        }
    }
}

/// While the two directions agree, as many peers as participants are mapped.
pub proof fn lemma_one_to_one_sizes(m: PeerParticipantMapView)
    requires
        m.bijective(),
        m.peer_to_participant.dom().finite(),
    ensures
        m.peer_to_participant.dom().len() == m.participant_to_peer.dom().len(),
{
    let f = |p: Uuid| m.peer_to_participant[p];
    let x = m.peer_to_participant.dom();
    assert(x.map(f) =~= m.participant_to_peer.dom()) by {
        assert forall|q: Uuid| m.participant_to_peer.dom().contains(q) implies #[trigger] x.map(f).contains(q) by {
            let p = m.participant_to_peer[q];
            assert(x.contains(p) && f(p) == q);
        }
    }
    assert(vstd::relations::injective_on(f, x)) by {
        assert forall|a: Uuid, b: Uuid| x.contains(a) && x.contains(b) && #[trigger] f(a) == #[trigger] f(b) implies a == b by {
            assert(m.participant_to_peer[f(a)] == a);
            assert(m.participant_to_peer[f(b)] == b);
        }
    }
    vstd::set_lib::lemma_map_size(x, m.participant_to_peer.dom(), f);
}

/// Removing by peer, or by participant, keeps the two directions in agreement.
pub proof fn lemma_remove_keeps_one_to_one(m: PeerParticipantMapView, peer: Uuid, participant: Uuid)
    requires
        m.bijective(),
    ensures
        m.peer_to_participant.contains_key(peer) ==> (PeerParticipantMapView {
            peer_to_participant: m.peer_to_participant.remove(peer),
            participant_to_peer: m.participant_to_peer.remove(m.peer_to_participant[peer]),
        }).bijective(),
        m.participant_to_peer.contains_key(participant) ==> (PeerParticipantMapView {
            peer_to_participant: m.peer_to_participant.remove(m.participant_to_peer[participant]),
            participant_to_peer: m.participant_to_peer.remove(participant),
        }).bijective(),
{
}

} // verus!
