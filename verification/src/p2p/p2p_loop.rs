//! The P2P loop: peer bookkeeping, event ordering and translation between
//! the network and the lobby domain.
//!
//! The loop decides; its caller reads the network (handing over what
//! arrived, with the sync messages decoded) and sends what it queued.

use vstd::prelude::*;
use std::collections::VecDeque;
use crate::ident::Uuid;
use crate::clock::now_millis;
use crate::domain::participant::{LobbyRole, ParticipantView};
use crate::application::commands::{DomainCommand, DomainCommandView};
use crate::application::events::DomainEvent as CoreDomainEvent;
use crate::p2p::peer::PeerId;
use crate::p2p::event::{EventView, LobbyEvent, LobbyEventView};
use crate::p2p::peer_state::{PeerRegistry, PeerRegistryView, PeerStateView, DEFAULT_GRACE_PERIOD_MS};
use crate::p2p::sync_manager::{
    EventSyncManager, LobbySnapshot, LobbySnapshotView, SyncEffect, SyncMessage, SyncMessageView,
    SyncResponse, SyncView, changes, effect_of, event_views, sync_effect, numbered, SyncError,
};
use crate::p2p::event_translator::{p2p_event_for};
use crate::p2p::event_log::EventLogView;
use crate::p2p::event_translator::{EventTranslator, command_for};
use crate::p2p::message_queue::{MessageQueue, MessageQueueView};
use crate::p2p::connection_event::ConnectionEvent;
use crate::p2p::error::{P2PError, send_failed};

verus! {

/// A network event, with the sync message that its bytes hold when they
/// hold one.
#[derive(Debug)]
pub struct Arrival {
    pub event: ConnectionEvent,
    pub message: Option<SyncMessage>,
}

/// A sync message to send: to one peer, or to every peer when `to` is none.
#[derive(Debug)]
pub struct Dispatch {
    pub to: Option<PeerId>,
    pub message: SyncMessage,
}

pub struct DispatchView {
    pub to: Option<PeerId>,
    pub message: SyncMessageView,
}

impl View for Dispatch {
    type V = DispatchView;

    open spec fn view(&self) -> DispatchView {
        DispatchView { to: self.to, message: self.message@ }
    }
}

/// The views of queued dispatches.
pub open spec fn dispatch_views(s: Seq<Dispatch>) -> Seq<DispatchView> {
    s.map_values(|d: Dispatch| d@)
}

/// What the P2P loop does with a sync message does not depend on when the
/// creation event of a full state was stamped.
proof fn lemma_effect_time(v: P2PLoopView, sv: SyncView, from: PeerId, m: SyncMessage, t: u64)
    ensures
        (P2PLoopView { sync: sync_effect(sv, from, m, t).0, ..v }).apply_effect(sync_effect(sv, from, m, t).1)
            == (P2PLoopView { sync: sync_effect(sv, from, m, 0).0, ..v }).apply_effect(
            sync_effect(sv, from, m, 0).1,
        ),
{
    match m {
        SyncMessage::FullSyncResponse { snapshot, events } => {
            let ev = EventView::LobbyCreated {
                lobby_id: snapshot.lobby_id,
                host_id: snapshot.host_id,
                name: snapshot.name@,
            };
            assert(changes(seq![numbered(0, snapshot.lobby_id, t, ev)] + event_views(events@)) =~= changes(
                seq![numbered(0, snapshot.lobby_id, 0, ev)] + event_views(events@),
            ));
        },
        _ => {},
    }
}

/// The name of the first host among `ps`, or "Host" when there is none.
pub open spec fn first_host_name(ps: Seq<ParticipantView>) -> Seq<char>
    decreases ps.len(),
{
    if ps.len() == 0 {
        "Host"@
    } else if ps[0].role == LobbyRole::Host {
        ps[0].name
    } else {
        first_host_name(ps.drop_first())
    }
}

/// The commands that apply the changes `es` in `lobby`, in order; changes
/// without a command are skipped.
pub open spec fn commands_for(lobby: Uuid, es: Seq<EventView>) -> Seq<DomainCommandView>
    decreases es.len(),
{
    if es.len() == 0 {
        Seq::empty()
    } else {
        let rest = commands_for(lobby, es.drop_last());
        match command_for(lobby, es.last()) {
            Some(c) => rest.push(c),
            None => rest,
        }
    }
}

/// The commands that apply a snapshot and the changes after it: create the
/// lobby under its id, named as the snapshot says and hosted by the name of
/// its first host, then apply the changes.
pub open spec fn snapshot_commands(lobby: Uuid, s: LobbySnapshotView, es: Seq<EventView>) -> Seq<
    DomainCommandView,
> {
    seq![
        DomainCommandView::CreateLobby {
            lobby_id: Some(s.lobby_id),
            lobby_name: s.name,
            host_name: first_host_name(s.participants),
        },
    ] + commands_for(lobby, es)
}

/// `n`, or the largest `usize` when `n` is larger.
pub open spec fn capped(n: int) -> int {
    if n <= usize::MAX {
        n
    } else {
        usize::MAX as int
    }
}

/// What a P2P loop is: its peers, its sync state, its lobby, its (unused)
/// outbound queue, the connection events for the session, the events to
/// translate, the commands for the domain, events per poll, and the
/// messages queued for sending.
pub struct P2PLoopView {
    pub registry: PeerRegistryView,
    pub sync: SyncView,
    pub lobby: Uuid,
    pub outbound: MessageQueueView,
    pub events: Seq<ConnectionEvent>,
    pub lobby_events: Seq<LobbyEventView>,
    pub commands: Seq<DomainCommandView>,
    pub batch_size: usize,
    pub dispatches: Seq<DispatchView>,
}

impl P2PLoopView {
    /// The loop after the sync manager asks for `eff`.
    pub open spec fn apply_effect(self, eff: SyncEffect) -> P2PLoopView {
        match eff {
            SyncEffect::Command(c) => P2PLoopView { commands: self.commands.push(c), ..self },
            SyncEffect::Events(es) => P2PLoopView { lobby_events: self.lobby_events + es, ..self },
            SyncEffect::Snapshot(s, es) => P2PLoopView {
                commands: self.commands + snapshot_commands(self.lobby, s, changes(es)),
                ..self
            },
            SyncEffect::Send(to, m) => P2PLoopView {
                dispatches: self.dispatches.push(DispatchView { to, message: m }),
                ..self
            },
            _ => self,
        }
    }

    /// The loop after one arrival at time `now`: the peer is registered,
    /// seen, marked disconnected or removed; a sync message is handled; and
    /// the event is kept for the session.
    pub open spec fn on_arrival(self, a: Arrival, now: u64) -> P2PLoopView {
        let reg = self.registry;
        let v1 = match a.event {
            ConnectionEvent::PeerConnected(p) => P2PLoopView {
                registry: PeerRegistryView {
                    peers: reg.peers.insert(p.0, PeerStateView::fresh(now)),
                    ..reg
                },
                ..self
            },
            ConnectionEvent::MessageReceived { from, .. } => {
                let seen = P2PLoopView {
                    registry: reg.with_peer(from.0, reg.peers[from.0].seen_at(now)),
                    ..self
                };
                match a.message {
                    Some(m) => {
                        let (s2, eff) = sync_effect(self.sync, from, m, 0);
                        P2PLoopView { sync: s2, ..seen }.apply_effect(eff)
                    },
                    None => seen,
                }
            },
            ConnectionEvent::PeerDisconnected(p) => P2PLoopView {
                registry: reg.with_peer(p.0, reg.peers[p.0].disconnected_at(now)),
                ..self
            },
            ConnectionEvent::PeerTimedOut { peer_id, .. } => P2PLoopView {
                registry: PeerRegistryView { peers: reg.peers.remove(peer_id.0), ..reg },
                ..self
            },
        };
        P2PLoopView { events: v1.events.push(a.event), ..v1 }
    }

    /// The loop after the arrivals `arrs`, in order, at time `now`.
    pub open spec fn on_arrivals(self, arrs: Seq<Arrival>, now: u64) -> P2PLoopView
        decreases arrs.len(),
    {
        if arrs.len() == 0 {
            self
        } else {
            self.on_arrivals(arrs.drop_last(), now).on_arrival(arrs.last(), now)
        }
    }

    /// The loop after the peers `ids` (which the grace check found timed
    /// out) are reported to the session and removed, in that order.
    pub open spec fn report_timeouts(self, ids: Seq<Uuid>) -> P2PLoopView
        decreases ids.len(),
    {
        if ids.len() == 0 {
            self
        } else {
            let v = self.report_timeouts(ids.drop_last());
            let id = ids.last();
            let st = v.registry.peers[id];
            P2PLoopView {
                events: v.events.push(
                    ConnectionEvent::PeerTimedOut {
                        peer_id: PeerId(id),
                        participant_id: st.participant_id,
                        was_host: st.is_host,
                    },
                ),
                registry: PeerRegistryView { peers: v.registry.peers.remove(id), ..v.registry },
                ..v
            }
        }
    }

    /// The loop after the events to translate become commands for the domain.
    pub open spec fn translate_events(self) -> P2PLoopView {
        P2PLoopView {
            commands: self.commands + commands_for(self.lobby, changes(self.lobby_events)),
            lobby_events: Seq::empty(),
            ..self
        }
    }

    /// The loop after the host numbers the change `ev`, stamped `t`, logs
    /// it, and queues the broadcast of the event the log keeps under that
    /// number.
    pub open spec fn after_broadcast(self, ev: EventView, t: u64) -> P2PLoopView {
        let sv = self.sync;
        let s = sv.log.next_sequence;
        let log = (EventLogView { next_sequence: (s + 1) as u64, ..sv.log }).add(
            numbered(s, sv.lobby_id, t, ev),
        );
        P2PLoopView {
            sync: SyncView { log, ..sv },
            dispatches: self.dispatches.push(
                DispatchView {
                    to: None,
                    message: SyncMessageView::EventBroadcast { event: log.events[log.first_index(s as int)] },
                },
            ),
            ..self
        }
    }

    /// `next` and `n` are what a poll of the arrivals `arrs` can give: at
    /// some time, with the timed-out peers reported in some order of them.
    pub open spec fn polled(self, arrs: Seq<Arrival>, next: P2PLoopView, n: usize) -> bool {
        exists|now: u64, ids: Seq<Uuid>|
            {
                &&& ids.no_duplicates()
                &&& ids.to_set() == self.on_arrivals(arrs, now).registry.expiring(now)
                &&& next == #[trigger] self.poll_result(arrs, now, ids)
                &&& n == capped((arrs.len() + ids.len()) as int)
            }
    }

    /// A whole poll at time `now`, with the timed-out peers reported in the
    /// order `ids`.
    pub open spec fn poll_result(self, arrs: Seq<Arrival>, now: u64, ids: Seq<Uuid>) -> P2PLoopView {
        let v1 = self.on_arrivals(arrs, now);
        let v2 = P2PLoopView { registry: v1.registry.after_grace_checks(now), ..v1 };
        v2.report_timeouts(ids).translate_events()
    }
}

/// The P2P side of a session: peers, event ordering, translation to
/// domain commands, and the sync messages to send.
pub struct P2PLoop {
    peer_registry: PeerRegistry,
    event_sync: EventSyncManager,
    translator: EventTranslator,
    outbound: MessageQueue,
    inbound_events: Vec<ConnectionEvent>,
    inbound_lobby_events: Vec<LobbyEvent>,
    pending_domain_commands: VecDeque<DomainCommand>,
    batch_size: usize,
    dispatches: Vec<Dispatch>,
}

impl View for P2PLoop {
    type V = P2PLoopView;

    closed spec fn view(&self) -> P2PLoopView {
        P2PLoopView {
            registry: self.peer_registry@,
            sync: self.event_sync@,
            lobby: self.translator.lobby(),
            outbound: self.outbound@,
            events: self.inbound_events@,
            lobby_events: event_views(self.inbound_lobby_events@),
            commands: self.pending_domain_commands@.map_values(|c: DomainCommand| c@),
            batch_size: self.batch_size,
            dispatches: dispatch_views(self.dispatches@),
        }
    }
}

impl P2PLoop {
    pub open spec fn wf(&self) -> bool {
        self@.sync.wf()
    }

    /// A fresh loop with no peers, no events and no commands.
    pub open spec fn initial(self, lobby_id: Uuid, is_host: bool, batch_size: usize, max_queue_size: usize) -> bool {
        &&& self.wf()
        &&& self@.registry.peers == Map::<Uuid, PeerStateView>::empty()
        &&& self@.registry.grace_period_ms == DEFAULT_GRACE_PERIOD_MS
        &&& self@.sync == (SyncView {
            lobby_id,
            is_host,
            log: crate::p2p::sync_manager::empty_log(),
            pending: Map::empty(),
        })
        &&& self@.lobby == lobby_id
        &&& self@.outbound.items == Seq::<LobbyEvent>::empty()
        &&& self@.outbound.max_size == max_queue_size
        &&& self@.events == Seq::<ConnectionEvent>::empty()
        &&& self@.lobby_events == Seq::<LobbyEventView>::empty()
        &&& self@.commands == Seq::<DomainCommandView>::empty()
        &&& self@.batch_size == batch_size
        &&& self@.dispatches == Seq::<DispatchView>::empty()
    }

    fn create(lobby_id: Uuid, is_host: bool, batch_size: usize, max_queue_size: usize) -> (l: Self)
        ensures
            l.initial(lobby_id, is_host, batch_size, max_queue_size),
    {
        let event_sync = if is_host {
            EventSyncManager::new_host(lobby_id)
        } else {
            EventSyncManager::new_guest(lobby_id)
        };
        let l = P2PLoop {
            peer_registry: PeerRegistry::with_grace_period(DEFAULT_GRACE_PERIOD_MS),
            event_sync,
            translator: EventTranslator::new(lobby_id),
            outbound: MessageQueue::new(max_queue_size),
            inbound_events: Vec::new(),
            inbound_lobby_events: Vec::new(),
            pending_domain_commands: VecDeque::new(),
            batch_size,
            dispatches: Vec::new(),
        };
        proof {
            assert(l@.lobby_events =~= Seq::<LobbyEventView>::empty());
            assert(l@.commands =~= Seq::<DomainCommandView>::empty());
            assert(l@.dispatches =~= Seq::<DispatchView>::empty());
        }
        l
    }

    /// A loop for the host of `lobby_id`.
    pub fn new_host(lobby_id: Uuid, batch_size: usize, max_queue_size: usize) -> (l: Self)
        ensures
            l.initial(lobby_id, true, batch_size, max_queue_size),
    {
        Self::create(lobby_id, true, batch_size, max_queue_size)
    }

    /// A loop for a guest of `lobby_id`.
    pub fn new_guest(lobby_id: Uuid, batch_size: usize, max_queue_size: usize) -> (l: Self)
        ensures
            l.initial(lobby_id, false, batch_size, max_queue_size),
    {
        Self::create(lobby_id, false, batch_size, max_queue_size)
    }

    /// Queues the commands for the changes of `events`, in order.
    fn push_commands_for(&mut self, events: &Vec<LobbyEvent>)
        ensures
            final(self)@ == (P2PLoopView {
                commands: old(self)@.commands + commands_for(old(self)@.lobby, changes(event_views(events@))),
                ..old(self)@
            }),
    {
        let mut i: usize = 0;
        while i < events.len()
            invariant
                i <= events@.len(),
                self@ == (P2PLoopView {
                    commands: old(self)@.commands + commands_for(
                        old(self)@.lobby,
                        changes(event_views(events@.take(i as int))),
                    ),
                    ..old(self)@
                }),
            decreases events@.len() - i,
        {
            let ghost es = changes(event_views(events@.take(i as int)));
            let ghost x = events@[i as int]@.event;
            proof {
                assert(changes(event_views(events@.take(i + 1))) =~= es.push(x));
                assert(es.push(x).drop_last() =~= es);
            }
            let c = self.translator.to_domain_command(&events[i].event);
            match c {
                Some(c) => {
                    let ghost before = self.pending_domain_commands@;
                    let ghost cv = c@;
                    self.pending_domain_commands.push_back(c);
                    proof {
                        assert(self.pending_domain_commands@.map_values(|c: DomainCommand| c@) =~= before.map_values(
                            |c: DomainCommand| c@,
                        ).push(cv));
                    }
                },
                None => {},
            }
            proof {
                let lobby = old(self)@.lobby;
                match command_for(lobby, x) {
                    Some(cv) => {
                        assert(old(self)@.commands + commands_for(lobby, es).push(cv) =~= (
                        old(self)@.commands + commands_for(lobby, es)).push(cv));
                    },
                    None => {},
                }
            }
            i += 1;
        }
        proof {
            assert(events@.take(events@.len() as int) =~= events@);
        }
    }

    /// Queues the commands that rebuild the lobby from a snapshot and the
    /// events after it.
    fn apply_snapshot_to_domain(&mut self, snapshot: LobbySnapshot, events: Vec<LobbyEvent>)
        ensures
            final(self)@ == (P2PLoopView {
                commands: old(self)@.commands + snapshot_commands(
                    old(self)@.lobby,
                    snapshot@,
                    changes(event_views(events@)),
                ),
                ..old(self)@
            }),
    {
        let ghost ps = snapshot@.participants;
        let mut host_name: Option<String> = None;
        let mut i: usize = 0;
        proof {
            assert(ps.skip(0) =~= ps);
        }
        while i < snapshot.participants.len()
            invariant
                i <= snapshot.participants@.len(),
                ps == snapshot@.participants,
                match host_name {
                    Some(n) => n@ == first_host_name(ps),
                    None => first_host_name(ps) == first_host_name(ps.skip(i as int)),
                },
            decreases snapshot.participants@.len() - i,
        {
            proof {
                assert(ps.skip(i as int).drop_first() =~= ps.skip(i + 1));
                assert(ps.skip(i as int)[0] == ps[i as int]);
            }
            if host_name.is_none() && snapshot.participants[i].is_host() {
                host_name = Some(String::from_str(snapshot.participants[i].name()));
            }
            i += 1;
        }
        let host_name = match host_name {
            Some(n) => n,
            None => {
                proof {
                    assert(ps.skip(ps.len() as int) =~= Seq::<ParticipantView>::empty());
                    reveal_strlit("Host");
                }
                String::from_str("Host")
            },
        };
        let cmd = DomainCommand::CreateLobby {
            lobby_id: Some(snapshot.lobby_id),
            lobby_name: snapshot.name,
            host_name,
        };
        let ghost cv = cmd@;
        let ghost before = self.pending_domain_commands@;
        self.pending_domain_commands.push_back(cmd);
        proof {
            assert(self.pending_domain_commands@.map_values(|c: DomainCommand| c@) =~= before.map_values(
                |c: DomainCommand| c@,
            ).push(cv));
        }
        let ghost mid = self@;
        self.push_commands_for(&events);
        proof {
            assert(old(self)@.commands.push(cv) + commands_for(old(self)@.lobby, changes(event_views(events@)))
                =~= old(self)@.commands + snapshot_commands(old(self)@.lobby, snapshot@, changes(event_views(events@))));
        }
    }

    /// Does what a sync response asks for.
    fn apply_response(&mut self, r: Result<SyncResponse, crate::p2p::sync_manager::SyncError>)
        ensures
            final(self)@ == old(self)@.apply_effect(effect_of(r)),
    {
        match r {
            Ok(SyncResponse::ProcessCommand { command }) => {
                let ghost cv = command@;
                let ghost before = self.pending_domain_commands@;
                self.pending_domain_commands.push_back(command);
                proof {
                    assert(self.pending_domain_commands@.map_values(|c: DomainCommand| c@) =~= before.map_values(
                        |c: DomainCommand| c@,
                    ).push(cv));
                }
            },
            Ok(SyncResponse::ApplyEvents { events }) => {
                let mut events = events;
                let ghost before = self.inbound_lobby_events@;
                let ghost evs = events@;
                self.inbound_lobby_events.append(&mut events);
                proof {
                    assert(event_views(self.inbound_lobby_events@) =~= event_views(before) + event_views(evs));
                }
            },
            Ok(SyncResponse::SendMessage { to, message }) => {
                let ghost before = self.dispatches@;
                let d = Dispatch { to, message };
                let ghost dv = d@;
                self.dispatches.push(d);
                proof {
                    assert(dispatch_views(self.dispatches@) =~= dispatch_views(before).push(dv));
                }
            },
            Ok(SyncResponse::ApplySnapshot { snapshot, events }) => {
                self.apply_snapshot_to_domain(snapshot, events);
            },
            _ => {},
        }
    }

    /// Handles one arrival at time `now`.
    fn handle_arrival(&mut self, a: Arrival, now: u64)
        requires
            old(self).wf(),
        ensures
            final(self).wf(),
            final(self)@ == old(self)@.on_arrival(a, now),
    {
        let ghost a0 = a;
        let Arrival { event, message } = a;
        match &event {
            ConnectionEvent::PeerConnected(p) => {
                self.peer_registry.add_peer_at(*p, now);
            },
            ConnectionEvent::MessageReceived { from, .. } => {
                let from = *from;
                self.peer_registry.update_last_seen_at(&from, now);
                match message {
                    Some(m) => {
                        let ghost sv = self.event_sync@;
                        let ghost mm = m;
                        let ghost v0 = self@;
                        let r = self.event_sync.handle_message(from, m);
                        let ghost t = choose|t: u64| (self.event_sync@, effect_of(r)) == sync_effect(sv, from, mm, t);
                        self.apply_response(r);
                        proof {
                            lemma_effect_time(v0, sv, from, mm, t);
                        }
                    },
                    None => {},
                }
            },
            ConnectionEvent::PeerDisconnected(p) => {
                self.peer_registry.mark_peer_disconnected_at(p, now);
            },
            ConnectionEvent::PeerTimedOut { peer_id, .. } => {
                self.peer_registry.remove_peer(peer_id);
            },
        }
        self.inbound_events.push(event);
    }

    /// Handles what arrived from the network at time `now`: each arrival in
    /// order, then the grace periods (timed-out peers are reported to the
    /// session, in the registry's order, and removed), then the received
    /// events become domain commands. Answers how many arrivals and timeouts
    /// it handled.
    pub fn poll_at(&mut self, arrivals: Vec<Arrival>, now: u64) -> (processed: usize)
        requires
            old(self).wf(),
        ensures
            final(self).wf(),
            exists|ids: Seq<Uuid>|
                {
                    &&& ids.no_duplicates()
                    &&& ids.to_set() == old(self)@.on_arrivals(arrivals@, now).registry.expiring(now)
                    &&& final(self)@ == #[trigger] old(self)@.poll_result(arrivals@, now, ids)
                    &&& processed == capped((arrivals@.len() + ids.len()) as int)
                },
    {
        let ghost arrs = arrivals@;
        let total = arrivals.len();
        let mut rest = arrivals;
        let mut processed: usize = 0;
        let mut i: usize = 0;
        proof {
            assert(arrs.skip(0) =~= arrs);
            assert(arrs.take(0) =~= Seq::<Arrival>::empty());
        }
        while rest.len() > 0
            invariant
                self.wf(),
                i <= arrs.len(),
                arrs.len() == total,
                rest@ == arrs.skip(i as int),
                self@ == old(self)@.on_arrivals(arrs.take(i as int), now),
                processed == capped(i as int),
            decreases rest@.len(),
        {
            let a = rest.remove(0);
            proof {
                assert(arrs.take(i + 1).drop_last() =~= arrs.take(i as int));
                assert(arrs.take(i + 1).last() == a);
                assert(rest@ =~= arrs.skip(i + 1));
            }
            self.handle_arrival(a, now);
            processed = processed.saturating_add(1);
            i += 1;
        }
        proof {
            assert(arrs.take(i as int) =~= arrs);
        }
        let ghost v1 = self@;
        let timed_out = self.peer_registry.check_grace_periods_at(now);
        let ghost ids = crate::p2p::peer::peer_ids(timed_out@);
        let ghost v2 = self@;
        proof {
            assert(v2 == P2PLoopView { registry: v1.registry.after_grace_checks(now), ..v1 });
            assert forall|k: int| 0 <= k < ids.len() implies v2.registry.peers.contains_key(
                #[trigger] ids[k],
            ) by {
                assert(ids.to_set().contains(ids[k]));
            }
            assert(ids.take(0) =~= Seq::<Uuid>::empty());
        }
        let mut j: usize = 0;
        while j < timed_out.len()
            invariant
                self.wf(),
                j <= timed_out@.len(),
                ids == crate::p2p::peer::peer_ids(timed_out@),
                ids.no_duplicates(),
                self@ == v2.report_timeouts(ids.take(j as int)),
                forall|k: int| j <= k < ids.len() ==> self@.registry.peers.contains_key(#[trigger] ids[k]),
                processed == capped(arrs.len() + j as int),
            decreases timed_out@.len() - j,
        {
            let peer_id = timed_out[j];
            proof {
                assert(ids[j as int] == peer_id.0);
                assert(ids.take(j + 1).drop_last() =~= ids.take(j as int));
                assert(ids.take(j + 1).last() == peer_id.0);
            }
            match self.peer_registry.get_peer(&peer_id) {
                Some(st) => {
                    let ev = ConnectionEvent::PeerTimedOut {
                        peer_id,
                        participant_id: st.participant_id,
                        was_host: st.is_host,
                    };
                    self.inbound_events.push(ev);
                    processed = processed.saturating_add(1);
                },
                None => {},
            }
            self.peer_registry.remove_peer(&peer_id);
            proof {
                assert forall|k: int| j + 1 <= k < ids.len() implies self@.registry.peers.contains_key(
                    #[trigger] ids[k],
                ) by {
                    assert(ids[k] != ids[j as int]);
                }
            }
            j += 1;
        }
        proof {
            assert(ids.take(j as int) =~= ids);
        }
        let mut taken: Vec<LobbyEvent> = Vec::new();
        std::mem::swap(&mut taken, &mut self.inbound_lobby_events);
        proof {
            assert(event_views(self.inbound_lobby_events@) =~= Seq::<LobbyEventView>::empty());
        }
        self.push_commands_for(&taken);
        proof {
            assert(self@ == old(self)@.poll_result(arrs, now, ids));
        }
        processed
    }

    /// `poll_at` at the current time.
    pub fn poll(&mut self, arrivals: Vec<Arrival>) -> (processed: usize)
        requires
            old(self).wf(),
        ensures
            final(self).wf(),
            old(self)@.polled(arrivals@, final(self)@, processed),
    {
        let now = now_millis();
        self.poll_at(arrivals, now)
    }

    /// Queues a dispatch.
    fn dispatch(&mut self, to: Option<PeerId>, message: SyncMessage)
        ensures
            final(self)@ == (P2PLoopView {
                dispatches: old(self)@.dispatches.push(DispatchView { to, message: message@ }),
                ..old(self)@
            }),
    {
        let ghost before = self.dispatches@;
        let d = Dispatch { to, message };
        let ghost dv = d@;
        self.dispatches.push(d);
        proof {
            assert(dispatch_views(self.dispatches@) =~= dispatch_views(before).push(dv));
        }
    }

    /// Sends a domain command to the host (guests), to every peer.
    pub fn send_command_to_host(&mut self, command: DomainCommand) -> (r: Result<(), P2PError>)
        ensures
            r is Ok,
            final(self)@ == (P2PLoopView {
                dispatches: old(self)@.dispatches.push(
                    DispatchView { to: None, message: SyncMessageView::CommandRequest { command: command@ } },
                ),
                ..old(self)@
            }),
    {
        self.dispatch(None, SyncMessage::CommandRequest { command });
        Ok(())
    }

    /// Asks the host, through every peer, for the full state (guests only).
    pub fn request_full_sync(&mut self) -> (r: Result<(), P2PError>)
        ensures
            old(self)@.sync.is_host ==> send_failed(r, "Already the host"@) && final(self)@ == old(self)@,
            !old(self)@.sync.is_host ==> r is Ok && final(self)@ == (P2PLoopView {
                dispatches: old(self)@.dispatches.push(
                    DispatchView {
                        to: None,
                        message: SyncMessageView::RequestFullSync { lobby_id: old(self)@.sync.lobby_id },
                    },
                ),
                ..old(self)@
            }),
    {
        match self.event_sync.request_full_sync() {
            Ok(m) => {
                self.dispatch(None, m);
                Ok(())
            },
            Err(e) => Err(P2PError::SendFailed(e.message())),
        }
    }

    /// Numbers a local domain event and broadcasts it (host only); events
    /// that are not broadcast are refused.
    pub fn broadcast_domain_event(&mut self, event: CoreDomainEvent) -> (r: Result<(), P2PError>)
        requires
            old(self).wf(),
            old(self)@.sync.is_host ==> old(self)@.sync.log.next_sequence < u64::MAX,
        ensures
            final(self).wf(),
            p2p_event_for(event@) is None ==> send_failed(r, "Event not translatable to P2P"@)
                && final(self)@ == old(self)@,
            p2p_event_for(event@) is Some && !old(self)@.sync.is_host ==> send_failed(r, "Not the host"@)
                && final(self)@ == old(self)@,
            p2p_event_for(event@) is Some && old(self)@.sync.is_host ==> r is Ok && exists|t: u64|
                final(self)@ == #[trigger] old(self)@.after_broadcast(p2p_event_for(event@)->0, t),
    {
        let ghost wanted = p2p_event_for(event@);
        let p2p_event = match self.translator.to_p2p_event(event) {
            Some(e) => e,
            None => {
                return Err(P2PError::SendFailed(String::from_str("Event not translatable to P2P")));
            },
        };
        let ghost ev = p2p_event@;
        let ghost sv = self.event_sync@;
        let ghost s = sv.log.next_sequence;
        match self.event_sync.create_event(p2p_event) {
            Ok(m) => {
                let ghost t = choose|t: u64|
                    self.event_sync@ == (SyncView {
                        log: (EventLogView { next_sequence: (s + 1) as u64, ..sv.log }).add(
                            #[trigger] numbered(s, sv.lobby_id, t, ev),
                        ),
                        ..sv
                    });
                self.dispatch(None, m);
                proof {
                    assert(wanted == Some(ev));
                    assert(self@ == old(self)@.after_broadcast(wanted->0, t));
                }
                Ok(())
            },
            Err(e) => Err(P2PError::SendFailed(e.message())),
        }
    }

    /// Sends a peer the full state: the snapshot and every logged event
    /// (host only).
    pub fn send_full_sync_to_peer(&mut self, peer_id: PeerId, snapshot: LobbySnapshot) -> (r: Result<
        (),
        P2PError,
    >)
        ensures
            !old(self)@.sync.is_host ==> send_failed(r, "Not the host"@) && final(self)@ == old(self)@,
            old(self)@.sync.is_host ==> r is Ok && final(self)@ == (P2PLoopView {
                dispatches: old(self)@.dispatches.push(
                    DispatchView {
                        to: Some(peer_id),
                        message: SyncMessageView::FullSyncResponse {
                            snapshot: snapshot@,
                            events: old(self)@.sync.log.events,
                        },
                    },
                ),
                ..old(self)@
            }),
    {
        match self.event_sync.create_full_sync_response(0, snapshot) {
            Ok(m) => {
                self.dispatch(Some(peer_id), m);
                Ok(())
            },
            Err(e) => Err(P2PError::SendFailed(e.message())),
        }
    }

    /// Takes the connection events for the session, oldest first.
    pub fn drain_events(&mut self) -> (v: Vec<ConnectionEvent>)
        ensures
            v@ == old(self)@.events,
            final(self)@ == (P2PLoopView { events: Seq::empty(), ..old(self)@ }),
    {
        let mut taken: Vec<ConnectionEvent> = Vec::new();
        std::mem::swap(&mut taken, &mut self.inbound_events);
        taken
    }

    /// Takes the commands for the domain, oldest first.
    pub fn drain_domain_commands(&mut self) -> (v: Vec<DomainCommand>)
        ensures
            v@.map_values(|c: DomainCommand| c@) == old(self)@.commands,
            final(self)@ == (P2PLoopView { commands: Seq::empty(), ..old(self)@ }),
    {
        let mut v: Vec<DomainCommand> = Vec::new();
        let ghost all = self.pending_domain_commands@;
        while self.pending_domain_commands.len() > 0
            invariant
                v@ + self.pending_domain_commands@ == all,
                self.peer_registry@ == old(self)@.registry,
                self.event_sync@ == old(self)@.sync,
                self.translator.lobby() == old(self)@.lobby,
                self.outbound@ == old(self)@.outbound,
                self.inbound_events@ == old(self)@.events,
                event_views(self.inbound_lobby_events@) == old(self)@.lobby_events,
                self.batch_size == old(self)@.batch_size,
                dispatch_views(self.dispatches@) == old(self)@.dispatches,
                all == old(self).pending_domain_commands@,
            decreases self.pending_domain_commands@.len(),
        {
            match self.pending_domain_commands.pop_front() {
                Some(c) => {
                    v.push(c);
                    proof {
                        assert(v@ + self.pending_domain_commands@ =~= all);
                    }
                },
                None => {},
            }
        }
        proof {
            assert(v@ =~= all);
            assert(self.pending_domain_commands@.map_values(|c: DomainCommand| c@) =~= Seq::<DomainCommandView>::empty());
        }
        v
    }

    /// Takes the sync messages queued for sending, oldest first.
    pub fn drain_dispatches(&mut self) -> (v: Vec<Dispatch>)
        ensures
            dispatch_views(v@) == old(self)@.dispatches,
            final(self)@ == (P2PLoopView { dispatches: Seq::empty(), ..old(self)@ }),
    {
        let mut taken: Vec<Dispatch> = Vec::new();
        std::mem::swap(&mut taken, &mut self.dispatches);
        proof {
            assert(dispatch_views(self.dispatches@) =~= Seq::<DispatchView>::empty());
        }
        taken
    }

    pub fn peer_registry(&self) -> (r: &PeerRegistry)
        ensures
            r@ == self@.registry,
    {
        &self.peer_registry
    }

    pub fn peer_registry_mut(&mut self) -> (r: &mut PeerRegistry)
        ensures
            r@ == old(self)@.registry,
            final(self)@ == (P2PLoopView { registry: final(r)@, ..old(self)@ }),
    {
        &mut self.peer_registry
    }

    /// The last sequence number (see the sync manager).
    pub fn current_sequence(&self) -> (s: u64)
        requires
            self.wf(),
        ensures
            s == (if self@.sync.is_host {
                self@.sync.log.next_sequence - 1
            } else {
                self@.sync.log.highest_seen as int
            }),
    {
        self.event_sync.current_sequence()
    }

    /// Makes this loop the host's (after delegation).
    pub fn promote_to_host(&mut self)
        requires
            old(self).wf(),
        ensures
            final(self).wf(),
            final(self)@ == (P2PLoopView { sync: SyncView { is_host: true, ..old(self)@.sync }, ..old(self)@ }),
    {
        self.event_sync.promote_to_host();
    }

    /// How many events wait in the outbound queue.
    pub fn pending_messages(&self) -> (n: usize)
        ensures
            n == self@.outbound.items.len(),
    {
        self.outbound.len()
    }

    /// How many commands wait for the domain.
    pub fn pending_domain_commands(&self) -> (n: usize)
        ensures
            n == self@.commands.len(),
    {
        self.pending_domain_commands.len()
    }
}

} // verus!
