//! The session loop: the single place where the network side (the P2P
//! loop) and the lobby domain (the domain loop) meet.
//!
//! The host runs commands locally and broadcasts the resulting events;
//! guests send their commands to the host and apply what it broadcasts.

use vstd::prelude::*;
use std::collections::HashMap;
use crate::ident::Uuid;
use crate::domain::participant::{Participant, ParticipantView};
use crate::domain::lobby::{Lobby, LobbyView, participant_views};
use crate::application::commands::{DomainCommand, DomainCommandView, command_views};
use crate::application::command_queue::CommandQueueView;
use crate::application::events::{DomainEvent as CoreDomainEvent, DomainEventView};
use crate::application::domain_loop::{DomainLoop, DomainLoopView};
use crate::p2p::peer::PeerId;
use crate::p2p::peer_state::PeerRegistryView;
use crate::p2p::connection_event::ConnectionEvent;
use crate::p2p::sync_manager::{LobbySnapshot, LobbySnapshotView, SyncMessageView};
use crate::p2p::p2p_loop::{Arrival, DispatchView, P2PLoop, P2PLoopView, capped};
use crate::p2p::event_translator::p2p_event_for;
use crate::p2p::error::{P2PError, send_failed};

verus! {

/// What a session loop is: its P2P side, its domain side, its lobby, and
/// whether it is the host.
pub struct SessionLoopView {
    pub p2p: P2PLoopView,
    pub domain: DomainLoopView,
    pub lobby_id: Uuid,
    pub is_host: bool,
}

impl SessionLoopView {
    /// The session's lobby in the domain (meaningful when it exists).
    pub open spec fn the_lobby(self) -> LobbyView {
        self.domain.state.lobbies[self.lobby_id]
    }
}

/// The sequence number the P2P side reports: the last assigned on the
/// host, the highest seen on a guest.
pub open spec fn current_seq(v: P2PLoopView) -> int {
    if v.sync.is_host {
        v.sync.log.next_sequence - 1
    } else {
        v.sync.log.highest_seen as int
    }
}

/// `ps` lists the participants of `m`, each once.
pub open spec fn lists_participants(ps: Seq<ParticipantView>, m: Map<Uuid, ParticipantView>) -> bool {
    exists|ks: Seq<Uuid>|
        {
            &&& ks.no_duplicates()
            &&& ks.to_set() == m.dom()
            &&& ks.len() == ps.len()
            &&& forall|i: int| 0 <= i < ks.len() ==> #[trigger] ps[i] == m[ks[i]]
        }
}

/// The snapshot of lobby `l` with its participants listed as `ps`, as of
/// sequence number `seq`.
pub open spec fn snapshot_view(l: LobbyView, ps: Seq<ParticipantView>, seq: u64) -> LobbySnapshotView {
    LobbySnapshotView {
        lobby_id: l.id,
        name: l.name,
        host_id: l.host_id,
        participants: ps,
        as_of_sequence: seq,
    }
}

/// The P2P side after the full state is sent to `peer` (only the host's
/// P2P side sends it).
pub open spec fn full_sync_sent(v: P2PLoopView, peer: PeerId, snap: LobbySnapshotView) -> P2PLoopView {
    if v.sync.is_host {
        P2PLoopView {
            dispatches: v.dispatches.push(
                DispatchView {
                    to: Some(peer),
                    message: SyncMessageView::FullSyncResponse {
                        snapshot: snap,
                        events: v.sync.log.events,
                    },
                },
            ),
            ..v
        }
    } else {
        v
    }
}

/// The domain side after `c` is submitted (a full queue refuses it).
pub open spec fn submitted(d: DomainLoopView, c: DomainCommand) -> DomainLoopView {
    if d.inbound.items.len() < d.inbound.max_size {
        DomainLoopView {
            inbound: CommandQueueView { items: d.inbound.items.push(c), ..d.inbound },
            ..d
        }
    } else {
        d
    }
}

/// How many more commands the queue of `d` takes.
pub open spec fn room(d: DomainLoopView) -> int {
    if d.inbound.items.len() < d.inbound.max_size {
        d.inbound.max_size - d.inbound.items.len()
    } else {
        0
    }
}

/// `d2` is `d` after the commands `cs` are submitted in order: those that
/// fit in the queue are added, the rest refused.
pub open spec fn accepted(d: DomainLoopView, cs: Seq<DomainCommandView>, d2: DomainLoopView) -> bool {
    exists|acc: Seq<DomainCommand>|
        {
            &&& #[trigger] command_views(acc) == cs.take(vstd::math::min(room(d), cs.len() as int))
            &&& d2 == (DomainLoopView {
                inbound: CommandQueueView { items: d.inbound.items + acc, ..d.inbound },
                ..d
            })
        }
}

/// How the host reacts to one connection event: a new peer gets the full
/// state of the lobby (when there is one), a timed-out participant leaves
/// the lobby.
pub open spec fn on_connection(s: SessionLoopView, e: ConnectionEvent, t: SessionLoopView) -> bool {
    match e {
        ConnectionEvent::PeerConnected(peer) => if s.domain.state.lobbies.contains_key(s.lobby_id) {
            let l = s.domain.state.lobbies[s.lobby_id];
            exists|ps: Seq<ParticipantView>|
                {
                    &&& lists_participants(ps, l.participants)
                    &&& t == (SessionLoopView {
                        p2p: full_sync_sent(
                            s.p2p,
                            peer,
                            #[trigger] snapshot_view(l, ps, current_seq(s.p2p) as u64),
                        ),
                        ..s
                    })
                }
        } else {
            t == s
        },
        ConnectionEvent::PeerTimedOut { participant_id, .. } => match participant_id {
            Some(pid) => t == (SessionLoopView {
                domain: submitted(
                    s.domain,
                    DomainCommand::LeaveLobby { lobby_id: s.lobby_id, participant_id: pid },
                ),
                ..s
            }),
            None => t == s,
        },
        _ => t == s,
    }
}

/// `states` is a run of host reactions from `s` through the connection
/// events `es`: each state follows from the one before it by the event
/// between them.
pub open spec fn connection_trace(s: SessionLoopView, es: Seq<ConnectionEvent>, states: Seq<SessionLoopView>) -> bool {
    &&& states.len() == es.len() + 1
    &&& states[0] == s
    &&& forall|i: int| 0 <= i < es.len() ==> on_connection(#[trigger] states[i], es[i], states[i + 1])
}

/// `t` is `s` after the host reacts to the connection events `es`, in order.
pub open spec fn on_connections(s: SessionLoopView, es: Seq<ConnectionEvent>, t: SessionLoopView) -> bool {
    exists|states: Seq<SessionLoopView>| #[trigger] connection_trace(s, es, states) && states.last() == t
}

/// One host reaction keeps the session's lobby and queue size, keeps every
/// queued command, queues at most one more, and queues the departure of a
/// timed-out participant when the queue has room.
proof fn lemma_connection_step(s: SessionLoopView, e: ConnectionEvent, t: SessionLoopView)
    requires
        on_connection(s, e, t),
    ensures
        t.lobby_id == s.lobby_id,
        t.domain.inbound.max_size == s.domain.inbound.max_size,
        t.domain.inbound.items.len() <= s.domain.inbound.items.len() + 1,
        forall|x: DomainCommand| s.domain.inbound.items.contains(x) ==> #[trigger] t.domain.inbound.items.contains(x),
        e is PeerTimedOut && e->participant_id is Some && s.domain.inbound.items.len() < s.domain.inbound.max_size
            ==> t.domain.inbound.items.contains(
            DomainCommand::LeaveLobby { lobby_id: s.lobby_id, participant_id: e->participant_id->0 },
        ),
{
    match e {
        ConnectionEvent::PeerConnected(peer) => {
            if s.domain.state.lobbies.contains_key(s.lobby_id) {
                let l = s.domain.state.lobbies[s.lobby_id];
                let ps = choose|ps: Seq<ParticipantView>|
                    {
                        &&& lists_participants(ps, l.participants)
                        &&& t == (SessionLoopView {
                            p2p: full_sync_sent(
                                s.p2p,
                                peer,
                                #[trigger] snapshot_view(l, ps, current_seq(s.p2p) as u64),
                            ),
                            ..s
                        })
                    };
                assert(t.domain == s.domain);
            }
        },
        ConnectionEvent::PeerTimedOut { participant_id, .. } => {
            match participant_id {
                Some(pid) => {
                    let c = DomainCommand::LeaveLobby { lobby_id: s.lobby_id, participant_id: pid };
                    if s.domain.inbound.items.len() < s.domain.inbound.max_size {
                        let items = s.domain.inbound.items;
                        assert(t.domain.inbound.items == items.push(c));
                        assert(items.push(c)[items.len() as int] == c);
                        assert forall|x: DomainCommand| items.contains(x) implies #[trigger] items.push(c).contains(x) by {
                            let k = choose|k: int| 0 <= k < items.len() && items[k] == x;
                            assert(items.push(c)[k] == x);
                        }
                    }
                },
                None => {},
            }
        },
        _ => {},
    }
}

/// A participant whose peer timed out leaves the host's lobby: when the
/// host reacts to connection events and its queue has room for one command
/// per event, the queue gains `LeaveLobby` for the session's lobby and each
/// participant whose peer timed out.
pub proof fn lemma_timed_out_participants_leave(s: SessionLoopView, es: Seq<ConnectionEvent>, t: SessionLoopView)
    requires
        on_connections(s, es, t),
        room(s.domain) >= es.len(),
    ensures
        forall|i: int|
            0 <= i < es.len() && (#[trigger] es[i]) is PeerTimedOut && es[i]->participant_id is Some
                ==> t.domain.inbound.items.contains(
                DomainCommand::LeaveLobby { lobby_id: s.lobby_id, participant_id: es[i]->participant_id->0 },
            ),
{
    let states = choose|states: Seq<SessionLoopView>| #[trigger] connection_trace(s, es, states) && states.last() == t;
    let n0 = s.domain.inbound.items.len();
    // Along the trace the lobby and queue size stay, and the queue grows by at most one per event.
    assert forall|k: int| 0 <= k <= es.len() implies {
        &&& (#[trigger] states[k]).lobby_id == s.lobby_id
        &&& states[k].domain.inbound.max_size == s.domain.inbound.max_size
        &&& states[k].domain.inbound.items.len() <= n0 + k
    } by {
        lemma_trace_bounds(s, es, states, k);
    }
    assert forall|i: int|
        0 <= i < es.len() && (#[trigger] es[i]) is PeerTimedOut && es[i]->participant_id is Some implies t.domain.inbound.items.contains(
        DomainCommand::LeaveLobby { lobby_id: s.lobby_id, participant_id: es[i]->participant_id->0 },
    ) by {
        let c = DomainCommand::LeaveLobby { lobby_id: s.lobby_id, participant_id: es[i]->participant_id->0 };
        assert(on_connection(states[i], es[i], states[i + 1]));
        assert(states[i].lobby_id == s.lobby_id);
        lemma_connection_step(states[i], es[i], states[i + 1]);
        lemma_trace_keeps(s, es, states, i + 1, es.len() as int, c);
    }
}

/// Along a trace of host reactions the lobby and queue size stay, and the
/// queue grows by at most one command per event.
proof fn lemma_trace_bounds(s: SessionLoopView, es: Seq<ConnectionEvent>, states: Seq<SessionLoopView>, k: int)
    requires
        connection_trace(s, es, states),
        0 <= k <= es.len(),
    ensures
        states[k].lobby_id == s.lobby_id,
        states[k].domain.inbound.max_size == s.domain.inbound.max_size,
        states[k].domain.inbound.items.len() <= s.domain.inbound.items.len() + k,
    decreases k,
{
    if k > 0 {
        lemma_trace_bounds(s, es, states, k - 1);
        assert(on_connection(states[k - 1], es[k - 1], states[k]));
        lemma_connection_step(states[k - 1], es[k - 1], states[k]);
    }
}

/// A command queued at one state of a trace is still queued at every later one.
proof fn lemma_trace_keeps(s: SessionLoopView, es: Seq<ConnectionEvent>, states: Seq<SessionLoopView>, a: int, b: int, c: DomainCommand)
    requires
        connection_trace(s, es, states),
        0 <= a <= b <= es.len(),
        states[a].domain.inbound.items.contains(c),
    ensures
        states[b].domain.inbound.items.contains(c),
    decreases b - a,
{
    if a < b {
        assert(on_connection(states[a], es[a], states[a + 1]));
        lemma_connection_step(states[a], es[a], states[a + 1]);
        lemma_trace_keeps(s, es, states, a + 1, b, c);
    }
}

/// The first of `connected` that the registry does not tie to a participant.
pub open spec fn first_unregistered(reg: PeerRegistryView, connected: Seq<PeerId>) -> Option<PeerId>
    decreases connected.len(),
{
    if connected.len() == 0 {
        None
    } else if !(reg.peers.contains_key(connected[0].0)
        && reg.peers[connected[0].0].participant_id is Some) {
        Some(connected[0])
    } else {
        first_unregistered(reg, connected.drop_first())
    }
}

/// The registry after the host ties the newest guest, participant `pid`
/// named `name`, to the first connected peer without a participant.
pub open spec fn map_newest(reg: PeerRegistryView, pid: Uuid, name: Seq<char>, connected: Seq<PeerId>) -> PeerRegistryView {
    match first_unregistered(reg, connected) {
        Some(p) => reg.with_peer(p.0, reg.peers[p.0].with_info(pid, name, false)),
        None => reg,
    }
}

/// The registry after a guest ties its own peer to its participant `pid`.
pub open spec fn register_local(reg: PeerRegistryView, local: Option<PeerId>, pid: Uuid, is_host: bool) -> PeerRegistryView {
    match local {
        Some(p) => reg.with_peer(p.0, reg.peers[p.0].with_info(pid, Seq::empty(), is_host)),
        None => reg,
    }
}

/// `w` is the P2P side `v` after the host broadcasts the domain event `e`:
/// numbered at some time when it is broadcast at all.
pub open spec fn broadcast_done(v: P2PLoopView, e: DomainEventView, w: P2PLoopView) -> bool {
    if p2p_event_for(e) is None || !v.sync.is_host {
        w == v
    } else {
        exists|t: u64| w == #[trigger] v.after_broadcast(p2p_event_for(e)->0, t)
    }
}

/// How the session reacts to one domain event: a joined guest is tied to a
/// peer, and the host broadcasts every event but failures (while sequence
/// numbers last).
pub open spec fn on_domain_event(
    s: SessionLoopView,
    e: DomainEventView,
    connected: Seq<PeerId>,
    local: Option<PeerId>,
    t: SessionLoopView,
) -> bool {
    let reg = s.p2p.registry;
    let s1 = match e {
        DomainEventView::GuestJoined { participant, .. } => SessionLoopView {
            p2p: P2PLoopView {
                registry: if s.is_host {
                    map_newest(reg, participant.id, participant.name, connected)
                } else {
                    register_local(reg, local, participant.id, s.is_host)
                },
                ..s.p2p
            },
            ..s
        },
        _ => s,
    };
    if s1.is_host && !(e is CommandFailed) && current_seq(s1.p2p) < u64::MAX - 1 {
        broadcast_done(s1.p2p, e, t.p2p) && t == (SessionLoopView { p2p: t.p2p, ..s1 })
    } else {
        t == s1
    }
}

/// `states` is a run of reactions from `s` through the domain events `es`.
pub open spec fn domain_trace(
    s: SessionLoopView,
    es: Seq<DomainEventView>,
    connected: Seq<PeerId>,
    local: Option<PeerId>,
    states: Seq<SessionLoopView>,
) -> bool {
    &&& states.len() == es.len() + 1
    &&& states[0] == s
    &&& forall|i: int|
        0 <= i < es.len() ==> on_domain_event(#[trigger] states[i], es[i], connected, local, states[i + 1])
}

/// `t` is `s` after the session reacts to the domain events `es`, in order.
pub open spec fn on_domain_events(
    s: SessionLoopView,
    es: Seq<DomainEventView>,
    connected: Seq<PeerId>,
    local: Option<PeerId>,
    t: SessionLoopView,
) -> bool {
    exists|states: Seq<SessionLoopView>|
        #[trigger] domain_trace(s, es, connected, local, states) && states.last() == t
}

/// `t` and `n` are what one poll of the session can give, for the arrivals
/// `arrs`, the connected peers `connected` and the local peer `local`:
/// the P2P side polls; the host reacts to the connection events (a guest
/// drops them); the commands from the network go to the domain; the domain
/// polls; and the session reacts to every domain event.
pub open spec fn poll_relation(
    s: SessionLoopView,
    arrs: Seq<Arrival>,
    connected: Seq<PeerId>,
    local: Option<PeerId>,
    t: SessionLoopView,
    n: usize,
) -> bool {
    exists|p1: P2PLoopView, n1: usize, s2: SessionLoopView, d3: DomainLoopView, d4: DomainLoopView, n2: usize|
        #![trigger s.p2p.polled(arrs, p1, n1), accepted(s2.domain, s2.p2p.commands, d3), d3.polled(d4, n2)]
        {
            &&& s.p2p.polled(arrs, p1, n1)
            &&& {
                let s1 = SessionLoopView { p2p: P2PLoopView { events: Seq::empty(), ..p1 }, ..s };
                if s.is_host {
                    on_connections(s1, p1.events, s2)
                } else {
                    s2 == s1
                }
            }
            &&& accepted(s2.domain, s2.p2p.commands, d3)
            &&& d3.polled(d4, n2)
            &&& on_domain_events(
                SessionLoopView {
                    p2p: P2PLoopView { commands: Seq::empty(), ..s2.p2p },
                    domain: DomainLoopView { outbound: Seq::empty(), ..d4 },
                    ..s2
                },
                d4.outbound,
                connected,
                local,
                t,
            )
            &&& n == capped(n1 + n2)
        }
}

/// The session: the P2P side and the domain side of one lobby.
pub struct SessionLoop {
    p2p: P2PLoop,
    domain: DomainLoop,
    lobby_id: Uuid,
    is_host: bool,
}

impl View for SessionLoop {
    type V = SessionLoopView;

    closed spec fn view(&self) -> SessionLoopView {
        SessionLoopView { p2p: self.p2p@, domain: self.domain@, lobby_id: self.lobby_id, is_host: self.is_host }
    }
}

/// Copies of the participants of a map, each once, in the map's order.
pub(crate) fn participant_list(m: &HashMap<Uuid, Participant>) -> (v: Vec<Participant>)
    ensures
        lists_participants(v@.map_values(|p: Participant| p@), participant_views(m@)),
{
    let keys = crate::keys::map_keys(m);
    let mut v: Vec<Participant> = Vec::new();
    let mut i: usize = 0;
    while i < keys.len()
        invariant
            i <= keys@.len(),
            keys@.to_set() == m@.dom(),
            v@.len() == i,
            forall|j: int| 0 <= j < i ==> (#[trigger] v@[j])@ == m@[keys@[j]]@,
        decreases keys@.len() - i,
    {
        let k = keys[i];
        proof {
            assert(keys@.to_set().contains(k));
        }
        match m.get(&k) {
            Some(p) => v.push(p.clone()),
            None => {},
        }
        i += 1;
    }
    proof {
        let ps = v@.map_values(|p: Participant| p@);
        let pm = participant_views(m@);
        assert(pm.dom() =~= m@.dom());
        assert forall|j: int| 0 <= j < keys@.len() implies #[trigger] ps[j] == pm[keys@[j]] by {
            assert(ps[j] == v@[j]@);
        }
    }
    v
}

/// The snapshot of a lobby as of sequence number `seq`.
fn lobby_snapshot(lobby: &Lobby, seq: u64) -> (s: LobbySnapshot)
    ensures
        exists|ps: Seq<ParticipantView>|
            lists_participants(ps, lobby@.participants) && s@ == #[trigger] snapshot_view(lobby@, ps, seq),
{
    proof {
        lobby.lemma_participant_map();
    }
    let participants = participant_list(lobby.participants());
    let s = LobbySnapshot {
        lobby_id: lobby.id(),
        name: String::from_str(lobby.name()),
        host_id: lobby.host_id(),
        participants,
        as_of_sequence: seq,
    };
    proof {
        assert(s@ == snapshot_view(lobby@, s@.participants, seq));
    }
    s
}

impl SessionLoop {
    pub open spec fn wf(&self) -> bool {
        self@.p2p.sync.wf()
    }

    /// A session for the host of `lobby_id`.
    pub fn new_host(p2p: P2PLoop, domain: DomainLoop, lobby_id: Uuid) -> (l: Self)
        requires
            p2p@.sync.wf(),
        ensures
            l.wf(),
            l@ == (SessionLoopView { p2p: p2p@, domain: domain@, lobby_id, is_host: true }),
    {
        SessionLoop { p2p, domain, lobby_id, is_host: true }
    }

    /// A session for a guest of `lobby_id`; it asks the host for the full
    /// state at once.
    pub fn new_guest(p2p: P2PLoop, domain: DomainLoop, lobby_id: Uuid) -> (l: Self)
        requires
            p2p@.sync.wf(),
        ensures
            l.wf(),
            l@.domain == domain@,
            l@.lobby_id == lobby_id,
            !l@.is_host,
            l@.p2p == (if p2p@.sync.is_host {
                p2p@
            } else {
                P2PLoopView {
                    dispatches: p2p@.dispatches.push(
                        DispatchView {
                            to: None,
                            message: SyncMessageView::RequestFullSync { lobby_id: p2p@.sync.lobby_id },
                        },
                    ),
                    ..p2p@
                }
            }),
    {
        let mut p2p = p2p;
        let _ = p2p.request_full_sync();
        SessionLoop { p2p, domain, lobby_id, is_host: false }
    }

    /// Submits a domain command: the host queues it for its domain (a full
    /// queue refuses it), a guest sends it to the host.
    pub fn submit_command(&mut self, cmd: DomainCommand) -> (r: Result<(), P2PError>)
        requires
            old(self).wf(),
        ensures
            final(self).wf(),
            old(self)@.is_host && old(self)@.domain.inbound.items.len() >= old(self)@.domain.inbound.max_size
                ==> final(self)@ == old(self)@ && send_failed(
                r,
                crate::application::command_queue::QueueError::Full {
                    max: old(self)@.domain.inbound.max_size,
                }.message_spec(),
            ),
            old(self)@.is_host && old(self)@.domain.inbound.items.len() < old(self)@.domain.inbound.max_size
                ==> r is Ok && final(self)@ == (SessionLoopView {
                domain: submitted(old(self)@.domain, cmd),
                ..old(self)@
            }),
            !old(self)@.is_host ==> r is Ok && final(self)@ == (SessionLoopView {
                p2p: P2PLoopView {
                    dispatches: old(self)@.p2p.dispatches.push(
                        DispatchView { to: None, message: SyncMessageView::CommandRequest { command: cmd@ } },
                    ),
                    ..old(self)@.p2p
                },
                ..old(self)@
            }),
    {
        if self.is_host {
            match self.domain.submit(cmd) {
                Ok(()) => Ok(()),
                Err(e) => Err(P2PError::SendFailed(e.message())),
            }
        } else {
            self.p2p.send_command_to_host(cmd)
        }
    }

    /// Ties the local peer to this side's participant (guests).
    fn register_participant_for_peer(&mut self, participant_id: Uuid, local: Option<PeerId>)
        requires
            old(self).wf(),
        ensures
            final(self).wf(),
            final(self)@ == (SessionLoopView {
                p2p: P2PLoopView {
                    registry: register_local(old(self)@.p2p.registry, local, participant_id, old(self)@.is_host),
                    ..old(self)@.p2p
                },
                ..old(self)@
            }),
    {
        match local {
            Some(peer) => {
                let is_host = self.is_host;
                let reg = self.p2p.peer_registry_mut();
                match reg.get_peer_mut(&peer) {
                    Some(state) => {
                        state.set_participant_info(participant_id, String::new(), is_host);
                    },
                    None => {},
                }
            },
            None => {},
        }
    }

    /// Ties the newest guest to the first connected peer that has no
    /// participant yet (host).
    fn map_newest_guest_to_participant(&mut self, participant_id: Uuid, participant_name: &str, connected: &Vec<PeerId>)
        requires
            old(self).wf(),
        ensures
            final(self).wf(),
            final(self)@ == (SessionLoopView {
                p2p: P2PLoopView {
                    registry: map_newest(old(self)@.p2p.registry, participant_id, participant_name@, connected@),
                    ..old(self)@.p2p
                },
                ..old(self)@
            }),
    {
        let ghost reg0 = self@.p2p.registry;
        let mut i: usize = 0;
        let mut found: Option<PeerId> = None;
        proof {
            assert(connected@.skip(0) =~= connected@);
        }
        while i < connected.len()
            invariant
                i <= connected@.len(),
                self@.p2p.registry == reg0,
                first_unregistered(reg0, connected@) == (match found {
                    Some(p) => Some(p),
                    None => first_unregistered(reg0, connected@.skip(i as int)),
                }),
            decreases connected@.len() - i,
        {
            proof {
                assert(connected@.skip(i as int).drop_first() =~= connected@.skip(i + 1));
                assert(connected@.skip(i as int)[0] == connected@[i as int]);
            }
            if found.is_none() {
                let unregistered = match self.p2p.peer_registry().get_peer(&connected[i]) {
                    Some(st) => st.participant_id.is_none(),
                    None => true,
                };
                if unregistered {
                    found = Some(connected[i]);
                }
            }
            i += 1;
        }
        proof {
            assert(connected@.skip(i as int) =~= Seq::<PeerId>::empty());
        }
        match found {
            Some(peer) => {
                let reg = self.p2p.peer_registry_mut();
                match reg.get_peer_mut(&peer) {
                    Some(state) => {
                        state.set_participant_info(participant_id, String::from_str(participant_name), false);
                    },
                    None => {},
                }
            },
            None => {},
        }
    }

    /// The host's reactions to the connection events, in order.
    fn handle_connection_events(&mut self, events: Vec<ConnectionEvent>)
        requires
            old(self).wf(),
        ensures
            final(self).wf(),
            on_connections(old(self)@, events@, final(self)@),
    {
        let mut i: usize = 0;
        let ghost mut states: Seq<SessionLoopView> = seq![self@];
        while i < events.len()
            invariant
                self.wf(),
                i <= events@.len(),
                states.len() == i + 1,
                states[0] == old(self)@,
                states.last() == self@,
                forall|k: int| 0 <= k < i ==> on_connection(#[trigger] states[k], events@[k], states[k + 1]),
            decreases events@.len() - i,
        {
            let ghost m = self@;
            match &events[i] {
                ConnectionEvent::PeerConnected(peer) => {
                    let peer = *peer;
                    let seq = self.p2p.current_sequence();
                    let snap = match self.domain.event_loop().get_lobby(&self.lobby_id) {
                        Some(l) => Some(lobby_snapshot(l, seq)),
                        None => None,
                    };
                    match snap {
                        Some(sn) => {
                            let _ = self.p2p.send_full_sync_to_peer(peer, sn);
                        },
                        None => {},
                    }
                },
                ConnectionEvent::PeerTimedOut { participant_id, .. } => {
                    match participant_id {
                        Some(pid) => {
                            let _ = self.domain.submit(
                                DomainCommand::LeaveLobby { lobby_id: self.lobby_id, participant_id: *pid },
                            );
                        },
                        None => {},
                    }
                },
                _ => {},
            }
            proof {
                assert(on_connection(m, events@[i as int], self@));
                states = states.push(self@);
            }
            i += 1;
        }
        proof {
            assert(connection_trace(old(self)@, events@, states));
        }
    }

    /// Hands the commands from the network to the domain, in order; those
    /// that do not fit in its queue are dropped.
    fn move_commands(&mut self)
        requires
            old(self).wf(),
        ensures
            final(self).wf(),
            final(self)@.p2p == (P2PLoopView { commands: Seq::empty(), ..old(self)@.p2p }),
            accepted(old(self)@.domain, old(self)@.p2p.commands, final(self)@.domain),
            final(self)@.lobby_id == old(self)@.lobby_id,
            final(self)@.is_host == old(self)@.is_host,
    {
        let cmds = self.p2p.drain_domain_commands();
        let ghost d0 = self@.domain;
        let ghost cs = command_views(cmds@);
        proof {
            assert(cs =~= old(self)@.p2p.commands);
        }
        let ghost mut acc: Seq<DomainCommand> = Seq::empty();
        let total = cmds.len();
        let mut rest = cmds;
        let mut i: usize = 0;
        proof {
            assert(cmds@.skip(0) =~= cmds@);
            assert(command_views(acc) =~= cs.take(0));
            assert(d0.inbound.items + acc =~= d0.inbound.items);
        }
        while rest.len() > 0
            invariant
                self.wf(),
                i <= total,
                total == cmds@.len(),
                cs == command_views(cmds@),
                rest@ == cmds@.skip(i as int),
                command_views(acc) == cs.take(vstd::math::min(room(d0), i as int)),
                self@.domain == (DomainLoopView {
                    inbound: CommandQueueView { items: d0.inbound.items + acc, ..d0.inbound },
                    ..d0
                }),
                self@.p2p == (P2PLoopView { commands: Seq::empty(), ..old(self)@.p2p }),
                self@.lobby_id == old(self)@.lobby_id,
                self@.is_host == old(self)@.is_host,
            decreases rest@.len(),
        {
            let c = rest.remove(0);
            proof {
                assert(c == cmds@[i as int]);
                assert(rest@ =~= cmds@.skip(i + 1));
            }
            let r = self.domain.submit(c);
            proof {
                if r is Ok {
                    assert(acc.len() < room(d0));
                    let acc2 = acc.push(c);
                    assert(command_views(acc2) =~= command_views(acc).push(cs[i as int]));
                    assert(cs.take(vstd::math::min(room(d0), i + 1)) =~= cs.take(vstd::math::min(room(d0), i as int)).push(cs[i as int]));
                    assert(d0.inbound.items + acc2 =~= (d0.inbound.items + acc).push(c));
                    acc = acc2;
                } else {
                    assert(vstd::math::min(room(d0), i + 1) == vstd::math::min(room(d0), i as int));
                }
            }
            i += 1;
        }
        proof {
            assert(vstd::math::min(room(d0), i as int) == vstd::math::min(room(d0), cs.len() as int));
        }
    }

    /// The session's reactions to the domain events, in order.
    fn handle_domain_events(&mut self, events: Vec<CoreDomainEvent>, connected: &Vec<PeerId>, local: Option<PeerId>)
        requires
            old(self).wf(),
        ensures
            final(self).wf(),
            on_domain_events(
                old(self)@,
                events@.map_values(|e: CoreDomainEvent| e@),
                connected@,
                local,
                final(self)@,
            ),
    {
        let ghost evs = events@.map_values(|e: CoreDomainEvent| e@);
        let ghost mut states: Seq<SessionLoopView> = seq![self@];
        let total = events.len();
        let mut rest = events;
        let mut i: usize = 0;
        proof {
            assert(events@.skip(0) =~= events@);
        }
        while rest.len() > 0
            invariant
                self.wf(),
                i <= total,
                total == events@.len(),
                evs == events@.map_values(|e: CoreDomainEvent| e@),
                rest@ == events@.skip(i as int),
                states.len() == i + 1,
                states[0] == old(self)@,
                states.last() == self@,
                forall|k: int|
                    0 <= k < i ==> on_domain_event(#[trigger] states[k], evs[k], connected@, local, states[k + 1]),
            decreases rest@.len(),
        {
            let e = rest.remove(0);
            proof {
                assert(e == events@[i as int]);
                assert(rest@ =~= events@.skip(i + 1));
            }
            let ghost m = self@;
            match &e {
                CoreDomainEvent::GuestJoined { participant, .. } => {
                    let pid = participant.id();
                    if self.is_host {
                        self.map_newest_guest_to_participant(pid, participant.name(), connected);
                    } else {
                        self.register_participant_for_peer(pid, local);
                    }
                },
                _ => {},
            }
            let failed = match &e {
                CoreDomainEvent::CommandFailed { .. } => true,
                _ => false,
            };
            if self.is_host && !failed && self.p2p.current_sequence() < u64::MAX - 1 {
                let _ = self.p2p.broadcast_domain_event(e);
            }
            proof {
                assert(on_domain_event(m, evs[i as int], connected@, local, self@));
                states = states.push(self@);
            }
            i += 1;
        }
        proof {
            assert(domain_trace(old(self)@, evs, connected@, local, states));
        }
    }

    /// One round of the session: the P2P side handles what arrived, the
    /// host reacts to connection events (new peers get the full state,
    /// timed-out participants leave), commands from the network go to the
    /// domain, the domain runs a batch, and the session reacts to every
    /// domain event (joined guests are tied to peers; the host broadcasts
    /// all but failures). `connected` are the peers the network reports and
    /// `local` this side's own peer. Answers how many events and commands
    /// were handled.
    pub fn poll(&mut self, arrivals: Vec<Arrival>, connected: Vec<PeerId>, local: Option<PeerId>) -> (processed: usize)
        requires
            old(self).wf(),
        ensures
            final(self).wf(),
            poll_relation(old(self)@, arrivals@, connected@, local, final(self)@, processed),
    {
        let ghost s0 = self@;
        let ghost arrs = arrivals@;
        let n1 = self.p2p.poll(arrivals);
        let ghost p1 = self@.p2p;
        let events = self.p2p.drain_events();
        let ghost s1 = self@;
        proof {
            assert(s1 == SessionLoopView { p2p: P2PLoopView { events: Seq::empty(), ..p1 }, ..s0 });
        }
        if self.is_host {
            self.handle_connection_events(events);
        }
        let ghost s2 = self@;
        self.move_commands();
        let ghost d3 = self@.domain;
        let n2 = self.domain.poll();
        let ghost d4 = self@.domain;
        let devents = self.domain.drain_events();
        proof {
            assert(self@ == SessionLoopView {
                p2p: P2PLoopView { commands: Seq::empty(), ..s2.p2p },
                domain: DomainLoopView { outbound: Seq::empty(), ..d4 },
                ..s2
            });
        }
        let ghost evs = devents@.map_values(|e: CoreDomainEvent| e@);
        self.handle_domain_events(devents, &connected, local);
        proof {
            assert(evs == d4.outbound);
            assert(s0.p2p.polled(arrs, p1, n1));
            assert(accepted(s2.domain, s2.p2p.commands, d3));
            assert(d3.polled(d4, n2));
        }
        n1.saturating_add(n2)
    }

    /// The lobby's current state, for display.
    pub fn get_lobby(&self) -> (l: Option<&Lobby>)
        ensures
            match l {
                Some(l) => self@.domain.state.lobbies.contains_key(self@.lobby_id)
                    && l@ == self@.domain.state.lobbies[self@.lobby_id],
                None => !self@.domain.state.lobbies.contains_key(self@.lobby_id),
            },
    {
        self.domain.event_loop().get_lobby(&self.lobby_id)
    }

    pub fn lobby_id(&self) -> (id: Uuid)
        ensures
            id == self@.lobby_id,
    {
        self.lobby_id
    }

    pub fn is_host(&self) -> (b: bool)
        ensures
            b == self@.is_host,
    {
        self.is_host
    }

    /// Makes this side the host (after delegation).
    pub fn promote_to_host(&mut self)
        requires
            old(self).wf(),
        ensures
            final(self).wf(),
            final(self)@ == (SessionLoopView {
                is_host: true,
                p2p: P2PLoopView {
                    sync: crate::p2p::sync_manager::SyncView { is_host: true, ..old(self)@.p2p.sync },
                    ..old(self)@.p2p
                },
                ..old(self)@
            }),
    {
        self.is_host = true;
        self.p2p.promote_to_host();
    }

    /// Sends a peer the full state of the lobby (host only).
    pub fn send_full_sync_to_peer(&mut self, peer_id: PeerId) -> (r: Result<(), P2PError>)
        requires
            old(self).wf(),
        ensures
            final(self).wf(),
            !old(self)@.is_host ==> send_failed(r, "Only host can send full sync"@) && final(self)@
                == old(self)@,
            old(self)@.is_host && !old(self)@.domain.state.lobbies.contains_key(old(self)@.lobby_id)
                ==> send_failed(r, "No lobby found"@) && final(self)@ == old(self)@,
            old(self)@.is_host && old(self)@.domain.state.lobbies.contains_key(old(self)@.lobby_id)
                ==> exists|ps: Seq<ParticipantView>|
                {
                    &&& lists_participants(ps, old(self)@.the_lobby().participants)
                    &&& final(self)@ == (SessionLoopView {
                        p2p: full_sync_sent(
                            old(self)@.p2p,
                            peer_id,
                            #[trigger] snapshot_view(old(self)@.the_lobby(), ps, current_seq(old(self)@.p2p) as u64),
                        ),
                        ..old(self)@
                    })
                    &&& (old(self)@.p2p.sync.is_host ==> r is Ok)
                    &&& (!old(self)@.p2p.sync.is_host ==> send_failed(r, "Not the host"@))
                },
    {
        if !self.is_host {
            return Err(P2PError::SendFailed(String::from_str("Only host can send full sync")));
        }
        let seq = self.p2p.current_sequence();
        let ghost l = self@.the_lobby();
        let snapshot = match self.domain.event_loop().get_lobby(&self.lobby_id) {
            Some(lb) => lobby_snapshot(lb, seq),
            None => {
                return Err(P2PError::SendFailed(String::from_str("No lobby found")));
            },
        };
        let ghost ps = choose|ps: Seq<ParticipantView>|
            lists_participants(ps, l.participants) && snapshot@ == #[trigger] snapshot_view(l, ps, seq);
        let r = self.p2p.send_full_sync_to_peer(peer_id, snapshot);
        proof {
            assert(lists_participants(ps, l.participants));
            assert(snapshot_view(l, ps, current_seq(old(self)@.p2p) as u64) == snapshot_view(l, ps, seq));
        }
        r
    }

    /// The P2P side.
    pub fn p2p(&self) -> (p: &P2PLoop)
        ensures
            p@ == self@.p2p,
    {
        &self.p2p
    }

    /// The P2P side, to change.
    pub fn p2p_mut(&mut self) -> (p: &mut P2PLoop)
        ensures
            p@ == old(self)@.p2p,
            final(self)@ == (SessionLoopView { p2p: final(p)@, ..old(self)@ }),
    {
        &mut self.p2p
    }

    /// The domain side.
    pub fn domain(&self) -> (d: &DomainLoop)
        ensures
            d@ == self@.domain,
    {
        &self.domain
    }

    /// The domain side, to change.
    pub fn domain_mut(&mut self) -> (d: &mut DomainLoop)
        ensures
            d@ == old(self)@.domain,
            final(self)@ == (SessionLoopView { domain: final(d)@, ..old(self)@ }),
    {
        &mut self.domain
    }

    /// The sequence number the P2P side reports.
    pub fn current_sequence(&self) -> (s: u64)
        requires
            self.wf(),
        ensures
            s == current_seq(self@.p2p),
    {
        self.p2p.current_sequence()
    }
}

} // verus!
