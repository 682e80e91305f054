//! Connection state of peers: when they were seen, whether they dropped out,
//! and when their grace period ran out. Times are milliseconds on the wall
//! clock.

use vstd::prelude::*;
use std::collections::HashMap;
use crate::clock::now_millis;
use crate::ident::Uuid;
use crate::p2p::peer::{PeerId, peer_ids};

verus! {

broadcast use {vstd::std_specs::hash::group_hash_axioms, vstd::seq_lib::lemma_seq_contains_after_push};

/// The grace period of a registry made by `PeerRegistry::new`: 30 seconds.
pub const DEFAULT_GRACE_PERIOD_MS: u64 = 30_000;

/// Connection status of a peer.
#[derive(Debug, Clone, Copy, PartialEq, Eq, Structural)]
pub enum ConnectionStatus {
    /// Connected and responsive.
    Connected,
    /// Disconnected at `since`, within its grace period.
    Disconnected { since: u64 },
    /// The grace period ran out: the peer is gone.
    TimedOut,
}

/// What is known of one connected peer.
#[derive(Debug)]
pub struct PeerState {
    /// When the peer connected.
    pub connected_at: u64,
    /// When anything was last received from the peer.
    pub last_seen: u64,
    pub status: ConnectionStatus,
    /// The participant of the peer, once known.
    pub participant_id: Option<Uuid>,
    /// The participant's name, once known.
    pub name: Option<String>,
    pub is_host: bool,
}

/// How long has passed from `since` to `now`; none if `now` lies before it.
pub open spec fn elapsed(since: u64, now: u64) -> int {
    if now >= since {
        now - since
    } else {
        0
    }
}

/// What is known of a peer, with the name as text.
pub struct PeerStateView {
    pub connected_at: u64,
    pub last_seen: u64,
    pub status: ConnectionStatus,
    pub participant_id: Option<Uuid>,
    pub name: Option<Seq<char>>,
    pub is_host: bool,
}

impl View for PeerState {
    type V = PeerStateView;

    open spec fn view(&self) -> PeerStateView {
        PeerStateView {
            connected_at: self.connected_at,
            last_seen: self.last_seen,
            status: self.status,
            participant_id: self.participant_id,
            name: match self.name {
                Some(n) => Some(n@),
                None => None,
            },
            is_host: self.is_host,
        }
    }
}

impl PeerStateView {
    pub open spec fn timed_out(self) -> bool {
        self.status is TimedOut
    }

    /// Whether a grace check at `now` with period `grace_ms` finds the peer
    /// expired: it is disconnected and at least `grace_ms` have passed.
    pub open spec fn expires_at(self, now: u64, grace_ms: u64) -> bool {
        match self.status {
            ConnectionStatus::Disconnected { since } => elapsed(since, now) >= grace_ms,
            _ => false,
        }
    }

    /// The state after a grace check at `now`.
    pub open spec fn after_grace_check(self, now: u64, grace_ms: u64) -> PeerStateView {
        if self.expires_at(now, grace_ms) {
            PeerStateView { status: ConnectionStatus::TimedOut, ..self }
        } else {
            self
        }
    }

    /// A freshly connected peer at time `now`, with nothing known of its
    /// participant.
    pub open spec fn fresh(now: u64) -> PeerStateView {
        PeerStateView {
            connected_at: now,
            last_seen: now,
            status: ConnectionStatus::Connected,
            participant_id: None,
            name: None,
            is_host: false,
        }
    }

    /// The state once disconnected at `now`.
    pub open spec fn disconnected_at(self, now: u64) -> PeerStateView {
        PeerStateView { status: ConnectionStatus::Disconnected { since: now }, ..self }
    }

    /// The state once seen at `now`.
    pub open spec fn seen_at(self, now: u64) -> PeerStateView {
        PeerStateView { last_seen: now, ..self }
    }

    /// The state once it stands for participant `id`, named `name`.
    pub open spec fn with_info(self, id: Uuid, name: Seq<char>, is_host: bool) -> PeerStateView {
        PeerStateView { participant_id: Some(id), name: Some(name), is_host, ..self }
    }
}

impl PeerState {
    /// A freshly connected peer, stamped with the current time.
    pub fn new() -> (s: Self)
        ensures
            s@ == PeerStateView::fresh(s.connected_at),
    {
        Self::new_at(now_millis())
    }

    /// A freshly connected peer, stamped with `now`.
    pub fn new_at(now: u64) -> (s: Self)
        ensures
            s@ == PeerStateView::fresh(now),
    {
        PeerState {
            connected_at: now,
            last_seen: now,
            status: ConnectionStatus::Connected,
            participant_id: None,
            name: None,
            is_host: false,
        }
    }

    /// Records that the peer was seen now.
    pub fn update_last_seen(&mut self)
        ensures
            final(self)@ == old(self)@.seen_at(final(self)@.last_seen),
    {
        let now = now_millis();
        self.update_last_seen_at(now);
    }

    /// Records that the peer was seen at `now`.
    pub fn update_last_seen_at(&mut self, now: u64)
        ensures
            final(self)@ == old(self)@.seen_at(now),
    {
        self.last_seen = now;
    }

    /// Sets the participant the peer stands for.
    pub fn set_participant_info(&mut self, participant_id: Uuid, name: String, is_host: bool)
        ensures
            final(self)@ == old(self)@.with_info(participant_id, name@, is_host),
    {
        self.participant_id = Some(participant_id);
        self.name = Some(name);
        self.is_host = is_host;
    }

    /// Whether the participant of the peer is known.
    pub fn has_participant_info(&self) -> (b: bool)
        ensures
            b == self@.participant_id is Some,
    {
        self.participant_id.is_some()
    }

    /// Marks the peer disconnected now, which starts its grace period.
    pub fn mark_disconnected(&mut self)
        ensures
            final(self)@.status is Disconnected,
            final(self)@ == old(self)@.disconnected_at(final(self)@.status->since),
    {
        let now = now_millis();
        self.mark_disconnected_at(now);
    }

    /// Marks the peer disconnected at `now`.
    pub fn mark_disconnected_at(&mut self, now: u64)
        ensures
            final(self)@ == old(self)@.disconnected_at(now),
    {
        self.status = ConnectionStatus::Disconnected { since: now };
    }

    /// Checks the grace period against the current time: a disconnected
    /// peer whose period has run out becomes timed out, and the answer says
    /// whether that happened now.
    pub fn check_grace_period(&mut self, grace_ms: u64) -> (expired: bool)
        ensures
            exists|now: u64|
                expired == old(self)@.expires_at(now, grace_ms)
                    && final(self)@ == #[trigger] old(self)@.after_grace_check(now, grace_ms),
            !(old(self)@.status is Disconnected) ==> !expired && final(self)@ == old(self)@,
            grace_ms == 0 && old(self)@.status is Disconnected ==> expired
                && final(self)@.timed_out(),
    {
        let now = now_millis();
        self.check_grace_period_at(now, grace_ms)
    }

    /// Checks the grace period against time `now`.
    pub fn check_grace_period_at(&mut self, now: u64, grace_ms: u64) -> (expired: bool)
        ensures
            expired == old(self)@.expires_at(now, grace_ms),
            final(self)@ == old(self)@.after_grace_check(now, grace_ms),
    {
        match self.status {
            ConnectionStatus::Disconnected { since } => {
                let passed: u64 = if now >= since {
                    now - since
                } else {
                    0
                };
                if passed >= grace_ms {
                    self.status = ConnectionStatus::TimedOut;
                    true
                } else {
                    false
                }
            },
            _ => false,
        }
    }

    /// Whether the grace period ran out.
    pub fn is_timed_out(&self) -> (b: bool)
        ensures
            b == self@.timed_out(),
    {
        match self.status {
            ConnectionStatus::TimedOut => true,
            _ => false,
        }
    }

    /// Whether the peer is disconnected, in its grace period or past it.
    pub fn is_disconnected(&self) -> (b: bool)
        ensures
            b == !(self@.status is Connected),
    {
        match self.status {
            ConnectionStatus::Connected => false,
            _ => true,
        }
    }
}

impl Clone for PeerState {
    fn clone(&self) -> (s: Self)
        ensures
            s@ == self@,
    {
        let name = match &self.name {
            Some(n) => Some(n.clone()),
            None => None,
        };
        PeerState {
            connected_at: self.connected_at,
            last_seen: self.last_seen,
            status: self.status,
            participant_id: self.participant_id,
            name,
            is_host: self.is_host,
        }
    }
}

impl Default for PeerState {
    fn default() -> (s: Self)
        ensures
            s@ == PeerStateView::fresh(s.connected_at),
    {
        Self::new()
    }
}

/// The views of the states in a map.
pub open spec fn state_views(m: Map<Uuid, PeerState>) -> Map<Uuid, PeerStateView> {
    m.map_values(|s: PeerState| s@)
}

/// Viewing commutes with setting a state.
pub broadcast proof fn lemma_state_views_insert(m: Map<Uuid, PeerState>, k: Uuid, v: PeerState)
    ensures
        #[trigger] state_views(m.insert(k, v)) == state_views(m).insert(k, v@),
{
    assert(state_views(m.insert(k, v)) =~= state_views(m).insert(k, v@));
}

/// Viewing commutes with removing a state.
pub broadcast proof fn lemma_state_views_remove(m: Map<Uuid, PeerState>, k: Uuid)
    ensures
        #[trigger] state_views(m.remove(k)) == state_views(m).remove(k),
{
    assert(state_views(m.remove(k)) =~= state_views(m).remove(k));
}

/// What a registry is: the state of each peer, by the value of its id, and
/// the grace period given to disconnected peers.
pub struct PeerRegistryView {
    pub peers: Map<Uuid, PeerStateView>,
    pub grace_period_ms: u64,
}

impl PeerRegistryView {
    /// The peers whose grace period has not run out.
    pub open spec fn live(self) -> Set<Uuid> {
        self.peers.dom().filter(|k: Uuid| !self.peers[k].timed_out())
    }

    /// Whether `k` is a host peer whose grace period has not run out.
    pub open spec fn live_host(self, k: Uuid) -> bool {
        self.peers.contains_key(k) && self.peers[k].is_host && !self.peers[k].timed_out()
    }

    /// The peers that a grace check at `now` finds expired.
    pub open spec fn expiring(self, now: u64) -> Set<Uuid> {
        self.peers.dom().filter(|k: Uuid| self.peers[k].expires_at(now, self.grace_period_ms))
    }

    /// The registry after a grace check of every peer at `now`.
    pub open spec fn after_grace_checks(self, now: u64) -> PeerRegistryView {
        PeerRegistryView {
            peers: Map::new(
                |k: Uuid| self.peers.contains_key(k),
                |k: Uuid| self.peers[k].after_grace_check(now, self.grace_period_ms),
            ),
            ..self
        }
    }

    /// The registry with the state of `k` replaced by `s`, if `k` is known.
    pub open spec fn with_peer(self, k: Uuid, s: PeerStateView) -> PeerRegistryView {
        if self.peers.contains_key(k) {
            PeerRegistryView { peers: self.peers.insert(k, s), ..self }
        } else {
            self
        }
    }
}

/// The state of every known peer.
#[derive(Debug)]
pub struct PeerRegistry {
    peers: HashMap<Uuid, PeerState>,
    grace_period_ms: u64,
}

impl View for PeerRegistry {
    type V = PeerRegistryView;

    closed spec fn view(&self) -> PeerRegistryView {
        PeerRegistryView { peers: state_views(self.peers@), grace_period_ms: self.grace_period_ms }
    }
}

impl PeerRegistry {
    /// An empty registry with a grace period of 30 seconds.
    pub fn new() -> (r: Self)
        ensures
            r@.peers == Map::<Uuid, PeerStateView>::empty(),
            r@.grace_period_ms == DEFAULT_GRACE_PERIOD_MS,
    {
        PeerRegistry { peers: HashMap::new(), grace_period_ms: DEFAULT_GRACE_PERIOD_MS }
    }

    /// An empty registry with the given grace period.
    pub fn with_grace_period(grace_period_ms: u64) -> (r: Self)
        ensures
            r@.peers == Map::<Uuid, PeerStateView>::empty(),
            r@.grace_period_ms == grace_period_ms,
    {
        PeerRegistry { peers: HashMap::new(), grace_period_ms }
    }

    /// The state of a peer, to change in place.
    pub fn get_peer_mut(&mut self, peer_id: &PeerId) -> (r: Option<&mut PeerState>)
        ensures
            old(self)@.peers.contains_key(peer_id.0) <==> r is Some,
            match r {
                Some(s) => s@ == old(self)@.peers[peer_id.0] && final(self)@ == (PeerRegistryView {
                    peers: old(self)@.peers.insert(peer_id.0, final(s)@),
                    ..old(self)@
                }),
                None => final(self)@ == old(self)@,
            },
    {
        broadcast use {lemma_state_views_insert, lemma_state_views_remove};

        let ghost before = self.peers@;
        match self.peers.entry(peer_id.0) {
            std::collections::hash_map::Entry::Occupied(o) => Some(o.into_mut()),
            std::collections::hash_map::Entry::Vacant(_) => {
                proof {
                    assert(before.remove(peer_id.0) =~= before);
                }
                None
            },
        }
    }

    /// Adds a peer, freshly connected now; a known peer starts over.
    pub fn add_peer(&mut self, peer_id: PeerId)
        ensures
            exists|now: u64|
                final(self)@ == (PeerRegistryView {
                    peers: old(self)@.peers.insert(peer_id.0, #[trigger] PeerStateView::fresh(now)),
                    ..old(self)@
                }),
    {
        let now = now_millis();
        self.add_peer_at(peer_id, now);
    }

    /// Adds a peer, freshly connected at `now`; a known peer starts over.
    pub fn add_peer_at(&mut self, peer_id: PeerId, now: u64)
        ensures
            final(self)@ == (PeerRegistryView {
                peers: old(self)@.peers.insert(peer_id.0, PeerStateView::fresh(now)),
                ..old(self)@
            }),
    {
        broadcast use {lemma_state_views_insert, lemma_state_views_remove};

        self.peers.insert(peer_id.0, PeerState::new_at(now));
    }

    /// Marks a known peer disconnected now, which starts its grace period;
    /// an unknown peer is ignored.
    pub fn mark_peer_disconnected(&mut self, peer_id: &PeerId)
        ensures
            exists|now: u64|
                final(self)@ == old(self)@.with_peer(
                    peer_id.0,
                    #[trigger] old(self)@.peers[peer_id.0].disconnected_at(now),
                ),
    {
        let now = now_millis();
        self.mark_peer_disconnected_at(peer_id, now);
    }

    /// Marks a known peer disconnected at `now`; an unknown peer is ignored.
    pub fn mark_peer_disconnected_at(&mut self, peer_id: &PeerId, now: u64)
        ensures
            final(self)@ == old(self)@.with_peer(
                peer_id.0,
                old(self)@.peers[peer_id.0].disconnected_at(now),
            ),
    {
        match self.get_peer_mut(peer_id) {
            Some(s) => s.mark_disconnected_at(now),
            None => {},
        }
    }

    /// Removes a peer, answering its state if it was known.
    pub fn remove_peer(&mut self, peer_id: &PeerId) -> (r: Option<PeerState>)
        ensures
            match r {
                Some(s) => old(self)@.peers.contains_key(peer_id.0) && s@ == old(self)@.peers[peer_id.0],
                None => !old(self)@.peers.contains_key(peer_id.0),
            },
            final(self)@ == (PeerRegistryView {
                peers: old(self)@.peers.remove(peer_id.0),
                ..old(self)@
            }),
    {
        broadcast use {lemma_state_views_insert, lemma_state_views_remove};

        self.peers.remove(&peer_id.0)
    }

    /// The state of a peer, if known.
    pub fn get_peer(&self, peer_id: &PeerId) -> (r: Option<&PeerState>)
        ensures
            match r {
                Some(s) => self@.peers.contains_key(peer_id.0) && s@ == self@.peers[peer_id.0],
                None => !self@.peers.contains_key(peer_id.0),
            },
    {
        self.peers.get(&peer_id.0)
    }

    /// Records that a known peer was seen now; an unknown peer is ignored.
    pub fn update_last_seen(&mut self, peer_id: &PeerId)
        ensures
            exists|now: u64|
                final(self)@ == old(self)@.with_peer(
                    peer_id.0,
                    #[trigger] old(self)@.peers[peer_id.0].seen_at(now),
                ),
    {
        let now = now_millis();
        self.update_last_seen_at(peer_id, now);
    }

    /// Records that a known peer was seen at `now`.
    pub fn update_last_seen_at(&mut self, peer_id: &PeerId, now: u64)
        ensures
            final(self)@ == old(self)@.with_peer(peer_id.0, old(self)@.peers[peer_id.0].seen_at(now)),
    {
        match self.get_peer_mut(peer_id) {
            Some(s) => s.update_last_seen_at(now),
            None => {},
        }
    }

    /// Checks every disconnected peer against its grace period now; those
    /// whose period ran out become timed out and are answered, each once.
    pub fn check_grace_periods(&mut self) -> (v: Vec<PeerId>)
        ensures
            exists|now: u64|
                #[trigger] old(self)@.after_grace_checks(now) == final(self)@
                    && peer_ids(v@).to_set() == old(self)@.expiring(now),
            peer_ids(v@).no_duplicates(),
    {
        let now = now_millis();
        self.check_grace_periods_at(now)
    }

    /// Checks every disconnected peer against its grace period at `now`.
    pub fn check_grace_periods_at(&mut self, now: u64) -> (v: Vec<PeerId>)
        ensures
            final(self)@ == old(self)@.after_grace_checks(now),
            peer_ids(v@).to_set() == old(self)@.expiring(now),
            peer_ids(v@).no_duplicates(),
    {
        broadcast use {lemma_state_views_insert, lemma_state_views_remove};

        let ghost before = self@;
        let keys = crate::keys::map_keys(&self.peers);
        let mut out: Vec<PeerId> = Vec::new();
        let mut i: usize = 0;
        while i < keys.len()
            invariant
                i <= keys@.len(),
                keys@.no_duplicates(),
                keys@.to_set() == before.peers.dom(),
                self.grace_period_ms == before.grace_period_ms,
                self@.peers.dom() == before.peers.dom(),
                forall|k: Uuid|
                    #![trigger self@.peers[k]]
                    before.peers.contains_key(k) ==> self@.peers[k] == (if keys@.take(
                        i as int,
                    ).contains(k) {
                        before.peers[k].after_grace_check(now, before.grace_period_ms)
                    } else {
                        before.peers[k]
                    }),
                peer_ids(out@).no_duplicates(),
                forall|k: Uuid|
                    peer_ids(out@).contains(k) <==> (keys@.take(
                        i as int,
                    ).contains(k) && before.peers[k].expires_at(now, before.grace_period_ms)),
            decreases keys.len() - i,
        {
            let k = keys[i];
            proof {
                assert(keys@.to_set().contains(k));
                assert(keys@.take(i + 1) =~= keys@.take(i as int).push(k));
                assert(!keys@.take(i as int).contains(k)) by {
                    if keys@.take(i as int).contains(k) {
                        let j = choose|j: int| 0 <= j < i && keys@.take(i as int)[j] == k;
                        assert(keys@[j] == keys@[i as int]);
                    }
                }
            }
            let ghost out_before = peer_ids(out@);
            proof {
                assert(!out_before.contains(k));
                assert(self@.peers[k] == before.peers[k]);
            }
            let ghost pv = self@.peers;
            match self.peers.remove(&k) {
                Some(st) => {
                    let mut st = st;
                    let expired = st.check_grace_period_at(now, self.grace_period_ms);
                    let ghost sv = st@;
                    self.peers.insert(k, st);
                    proof {
                        assert(self@.peers =~= pv.insert(k, sv));
                    }
                    if expired {
                        out.push(PeerId(k));
                        proof {
                            assert(peer_ids(out@) =~= out_before.push(k));
                        }
                    }
                },
                None => {},
            }
            i += 1;
        }
        proof {
            assert(keys@.take(keys@.len() as int) =~= keys@);
            assert forall|k: Uuid| #[trigger] before.peers.contains_key(k) implies keys@.contains(k) by {
                assert(keys@.to_set().contains(k));
            }
            assert(self@.peers =~= before.after_grace_checks(now).peers);
            assert(peer_ids(out@).to_set() =~= before.expiring(now));
        }
        out
    }

    /// Some peer whose participant is `participant_id`, if there is one;
    /// which one, if several are, follows the map's order.
    pub fn find_by_participant_id(&self, participant_id: Uuid) -> (r: Option<PeerId>)
        ensures
            match r {
                Some(p) => self@.peers.contains_key(p.0) && self@.peers[p.0].participant_id == Some(
                    participant_id,
                ),
                None => forall|k: Uuid|
                    #[trigger] self@.peers.contains_key(k) ==> self@.peers[k].participant_id != Some(
                        participant_id,
                    ),
            },
    {
        let keys = crate::keys::map_keys(&self.peers);
        let mut i: usize = 0;
        while i < keys.len()
            invariant
                i <= keys@.len(),
                keys@.to_set() == self@.peers.dom(),
                forall|j: int|
                    0 <= j < i ==> self@.peers[#[trigger] keys@[j]].participant_id != Some(
                        participant_id,
                    ),
            decreases keys.len() - i,
        {
            let k = keys[i];
            proof {
                assert(keys@.to_set().contains(k));
            }
            match self.peers.get(&k) {
                Some(st) => {
                    if st.participant_id == Some(participant_id) {
                        return Some(PeerId(k));
                    }
                },
                None => {},
            }
            i += 1;
        }
        proof {
            assert forall|k: Uuid| #[trigger] self@.peers.contains_key(k) implies self@.peers[k].participant_id
                != Some(participant_id) by {
                assert(keys@.to_set().contains(k));
                let j = choose|j: int| 0 <= j < keys@.len() && keys@[j] == k;
                assert(self@.peers[keys@[j]].participant_id != Some(participant_id));
            }
        }
        None
    }

    /// Some host peer whose grace period has not run out, with its state,
    /// if there is one; which one, if several are, follows the map's order.
    pub fn find_host(&self) -> (r: Option<(PeerId, &PeerState)>)
        ensures
            match r {
                Some((p, s)) => self@.live_host(p.0) && s@ == self@.peers[p.0],
                None => forall|k: Uuid| !(#[trigger] self@.live_host(k)),
            },
    {
        let keys = crate::keys::map_keys(&self.peers);
        let mut i: usize = 0;
        while i < keys.len()
            invariant
                i <= keys@.len(),
                keys@.to_set() == self@.peers.dom(),
                forall|j: int| 0 <= j < i ==> !self@.live_host(#[trigger] keys@[j]),
            decreases keys.len() - i,
        {
            let k = keys[i];
            proof {
                assert(keys@.to_set().contains(k));
            }
            match self.peers.get(&k) {
                Some(st) => {
                    if st.is_host && !st.is_timed_out() {
                        return Some((PeerId(k), st));
                    }
                },
                None => {},
            }
            i += 1;
        }
        proof {
            assert forall|k: Uuid| !(#[trigger] self@.live_host(k)) by {
                if self@.live_host(k) {
                    assert(keys@.to_set().contains(k));
                    let j = choose|j: int| 0 <= j < keys@.len() && keys@[j] == k;
                    assert(!self@.live_host(keys@[j]));
                }
            }
        }
        None
    }

    /// Every known peer with its state, each once, in the map's order.
    pub fn all_peers(&self) -> (v: Vec<(PeerId, &PeerState)>)
        ensures
            v@.map_values(|e: (PeerId, &PeerState)| e.0.0).no_duplicates(),
            v@.map_values(|e: (PeerId, &PeerState)| e.0.0).to_set() == self@.peers.dom(),
            forall|j: int| 0 <= j < v@.len() ==> (#[trigger] v@[j]).1@ == self@.peers[v@[j].0.0],
    {
        let keys = crate::keys::map_keys(&self.peers);
        let mut v: Vec<(PeerId, &PeerState)> = Vec::new();
        let mut i: usize = 0;
        while i < keys.len()
            invariant
                i <= keys@.len(),
                keys@.to_set() == self@.peers.dom(),
                v@.len() == i,
                forall|j: int|
                    0 <= j < i ==> (#[trigger] v@[j]).0.0 == keys@[j] && v@[j].1@ == self@.peers[keys@[j]],
            decreases keys.len() - i,
        {
            let k = keys[i];
            proof {
                assert(keys@.to_set().contains(k));
            }
            match self.peers.get(&k) {
                Some(st) => v.push((PeerId(k), st)),
                None => {},
            }
            i += 1;
        }
        proof {
            assert(v@.map_values(|e: (PeerId, &PeerState)| e.0.0) =~= keys@);
        }
        v
    }

    /// How many peers are known whose grace period has not run out.
    pub fn peer_count(&self) -> (n: usize)
        ensures
            n == self@.live().len(),
    {
        let keys = crate::keys::map_keys(&self.peers);
        let mut live: Vec<u128> = Vec::new();
        let mut i: usize = 0;
        while i < keys.len()
            invariant
                i <= keys@.len(),
                keys@.no_duplicates(),
                keys@.to_set() == self@.peers.dom(),
                live@.no_duplicates(),
                forall|k: Uuid|
                    live@.contains(k) <==> (keys@.take(i as int).contains(k)
                        && !self@.peers[k].timed_out()),
            decreases keys.len() - i,
        {
            let k = keys[i];
            proof {
                assert(keys@.to_set().contains(k));
                assert(keys@.take(i + 1) =~= keys@.take(i as int).push(k));
                assert(!keys@.take(i as int).contains(k)) by {
                    if keys@.take(i as int).contains(k) {
                        let j = choose|j: int| 0 <= j < i && keys@.take(i as int)[j] == k;
                        assert(keys@[j] == keys@[i as int]);
                    }
                }
            }
            proof {
                assert(!live@.contains(k));
            }
            match self.peers.get(&k) {
                Some(st) => {
                    if !st.is_timed_out() {
                        live.push(k);
                    }
                },
                None => {},
            }
            i += 1;
        }
        proof {
            assert(keys@.take(keys@.len() as int) =~= keys@);
            assert forall|k: Uuid| #[trigger] self@.peers.contains_key(k) implies keys@.contains(k) by {
                assert(keys@.to_set().contains(k));
            }
            assert(live@.to_set() =~= self@.live());
            live@.unique_seq_to_set();
        }
        live.len()
    }

    /// Whether a peer is known, is a host, and its grace period has not run out.
    pub fn is_peer_host(&self, peer_id: &PeerId) -> (b: bool)
        ensures
            b == self@.live_host(peer_id.0),
    {
        match self.peers.get(&peer_id.0) {
            Some(st) => st.is_host && !st.is_timed_out(),
            None => false,
        }
    }
}

impl Default for PeerRegistry {
    /// An empty registry with no grace period at all.
    fn default() -> (r: Self)
        ensures
            r@.peers == Map::<Uuid, PeerStateView>::empty(),
            r@.grace_period_ms == 0,
    {
        PeerRegistry { peers: HashMap::new(), grace_period_ms: 0 }
    }
}

} // verus!
