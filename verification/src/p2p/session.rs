//! A P2P session: the peers of a session, their participants, and event
//! synchronisation once it is set up.
//!
//! The session decides; its caller owns the connection, hands over what
//! arrived (with the sync messages decoded) and sends what it queued.

use vstd::prelude::*;
use crate::ident::{Uuid, random_uuid};
use crate::clock::now_millis;
use crate::p2p::peer::PeerId;
use crate::p2p::session_id::SessionId;
use crate::p2p::event::{DomainEvent, LobbyEvent, LobbyEventView, EventView};
use crate::p2p::event_log::EventLogView;
use crate::p2p::peer_state::{PeerRegistry, PeerRegistryView, PeerStateView, DEFAULT_GRACE_PERIOD_MS};
use crate::p2p::sync_manager::{
    EventSyncManager, LobbySnapshot, SyncEffect, SyncError, SyncMessage, SyncMessageView, SyncView,
    effect_of, event_views, numbered, sync_effect,
};
use crate::p2p::p2p_loop::{Arrival, Dispatch, DispatchView, dispatch_views};
use crate::p2p::connection_event::ConnectionEvent;
use crate::p2p::error::{P2PError, connection_failed};

verus! {

/// What a poll of the session hands back: a connection event, or an event
/// that synchronisation applied, to be handed on as coming from `from`.
#[derive(Debug)]
pub enum SessionOutput {
    Connection(ConnectionEvent),
    SyncEvent { from: PeerId, event: LobbyEvent },
}

/// What a session is: its id, its peers, its sync state once set up, and
/// the sync messages queued for sending.
pub struct P2PSessionView {
    pub session_id: SessionId,
    pub registry: PeerRegistryView,
    pub sync: Option<SyncView>,
    pub dispatches: Seq<DispatchView>,
}

impl P2PSessionView {
    pub open spec fn wf(self) -> bool {
        self.sync matches Some(sv) ==> sv.wf()
    }

    /// The session after one arrival at time `now` (a full state's creation
    /// event stamped `t`), and the events synchronisation applied.
    pub open spec fn on_arrival(self, a: Arrival, now: u64, t: u64) -> (P2PSessionView, Seq<LobbyEventView>) {
        let reg = self.registry;
        match a.event {
            ConnectionEvent::PeerConnected(p) => (
                P2PSessionView {
                    registry: PeerRegistryView {
                        peers: reg.peers.insert(p.0, PeerStateView::fresh(now)),
                        ..reg
                    },
                    ..self
                },
                Seq::empty(),
            ),
            ConnectionEvent::MessageReceived { from, .. } => {
                let seen = P2PSessionView {
                    registry: reg.with_peer(from.0, reg.peers[from.0].seen_at(now)),
                    ..self
                };
                match (self.sync, a.message) {
                    (Some(sv), Some(m)) => {
                        let (s2, eff) = sync_effect(sv, from, m, t);
                        let v = P2PSessionView { sync: Some(s2), ..seen };
                        match eff {
                            SyncEffect::Events(es) => (v, es),
                            SyncEffect::Snapshot(_, es) => (v, es),
                            SyncEffect::Send(to, msg) => (
                                P2PSessionView {
                                    dispatches: v.dispatches.push(DispatchView { to, message: msg }),
                                    ..v
                                },
                                Seq::empty(),
                            ),
                            _ => (v, Seq::empty()),
                        }
                    },
                    _ => (seen, Seq::empty()),
                }
            },
            ConnectionEvent::PeerDisconnected(p) => (
                P2PSessionView {
                    registry: reg.with_peer(p.0, reg.peers[p.0].disconnected_at(now)),
                    ..self
                },
                Seq::empty(),
            ),
            _ => (self, Seq::empty()),
        }
    }

    /// The session after the arrivals `arrs`, in order (the `i`-th stamped
    /// `ts[i]`), and the events synchronisation applied, in order.
    pub open spec fn on_arrivals(self, arrs: Seq<Arrival>, now: u64, ts: Seq<u64>) -> (P2PSessionView, Seq<LobbyEventView>)
        decreases arrs.len(),
    {
        if arrs.len() == 0 {
            (self, Seq::empty())
        } else {
            let r = self.on_arrivals(arrs.drop_last(), now, ts);
            let r2 = r.0.on_arrival(arrs.last(), now, ts[arrs.len() - 1]);
            (r2.0, r.1 + r2.1)
        }
    }

    /// The registry after the timed-out peers `ids` are removed, in order.
    pub open spec fn remove_all(self, ids: Seq<Uuid>) -> P2PSessionView
        decreases ids.len(),
    {
        if ids.len() == 0 {
            self
        } else {
            let v = self.remove_all(ids.drop_last());
            P2PSessionView {
                registry: PeerRegistryView { peers: v.registry.peers.remove(ids.last()), ..v.registry },
                ..v
            }
        }
    }
}

impl P2PSessionView {
    /// The session after a whole poll at time `now`: the arrivals (stamped
    /// `ts`), the grace check, and the removal of the timed-out peers `ids`.
    pub open spec fn poll_state(self, arrs: Seq<Arrival>, now: u64, ts: Seq<u64>, ids: Seq<Uuid>) -> P2PSessionView {
        let r = self.on_arrivals(arrs, now, ts);
        P2PSessionView { registry: r.0.registry.after_grace_checks(now), ..r.0 }.remove_all(ids)
    }

    /// What a poll at time `now` can give: the next state `next` and the
    /// answer `out`, for some stamps of full states and some order of the
    /// timed-out peers.
    pub open spec fn polled(self, arrs: Seq<Arrival>, local: Option<PeerId>, now: u64, next: P2PSessionView, out: Seq<SessionOutput>) -> bool {
        exists|ts: Seq<u64>, ids: Seq<Uuid>|
            {
                let r = self.on_arrivals(arrs, now, ts);
                &&& ts.len() == arrs.len()
                &&& ids.no_duplicates()
                &&& ids.to_set() == r.0.registry.expiring(now)
                &&& next == #[trigger] self.poll_state(arrs, now, ts, ids)
                &&& poll_output(out, arrs, r.1, local, ids, r.0.registry.after_grace_checks(now))
            }
    }
}

impl P2PSessionView {
    /// The session after the host numbers the change `ev`, stamped `t`,
    /// logs it, and queues the broadcast of the event the log keeps under
    /// that number.
    pub open spec fn after_event(self, sv: SyncView, ev: EventView, t: u64) -> P2PSessionView {
        let s = sv.log.next_sequence;
        let log = (EventLogView { next_sequence: (s + 1) as u64, ..sv.log }).add(
            numbered(s, sv.lobby_id, t, ev),
        );
        P2PSessionView {
            sync: Some(SyncView { log, ..sv }),
            dispatches: self.dispatches.push(
                DispatchView {
                    to: None,
                    message: SyncMessageView::EventBroadcast { event: log.events[log.first_index(s as int)] },
                },
            ),
            ..self
        }
    }
}

/// Stamps beyond the arrivals handled do not matter.
proof fn lemma_on_arrivals_stamps(v: P2PSessionView, arrs: Seq<Arrival>, now: u64, ts: Seq<u64>, ts2: Seq<u64>)
    requires
        ts.len() >= arrs.len(),
        ts2.len() >= arrs.len(),
        forall|k: int| 0 <= k < arrs.len() ==> ts2[k] == ts[k],
    ensures
        v.on_arrivals(arrs, now, ts2) == v.on_arrivals(arrs, now, ts),
    decreases arrs.len(),
{
    if arrs.len() > 0 {
        lemma_on_arrivals_stamps(v, arrs.drop_last(), now, ts, ts2);
    }
}

/// The report of a timed-out peer with state `st`.
pub open spec fn timeout_report(id: Uuid, st: PeerStateView) -> ConnectionEvent {
    ConnectionEvent::PeerTimedOut { peer_id: PeerId(id), participant_id: st.participant_id, was_host: st.is_host }
}

/// `out` is what a poll answers: each arrival's event, then each applied
/// event as coming from `local` (or some peer when there is none), then a
/// report for each timed-out peer `ids` with its state in `reg`.
pub open spec fn poll_output(
    out: Seq<SessionOutput>,
    arrs: Seq<Arrival>,
    applied: Seq<LobbyEventView>,
    local: Option<PeerId>,
    ids: Seq<Uuid>,
    reg: PeerRegistryView,
) -> bool {
    let n = arrs.len();
    let m = applied.len();
    &&& out.len() == n + m + ids.len()
    &&& forall|i: int| 0 <= i < n ==> #[trigger] out[i] == SessionOutput::Connection(arrs[i].event)
    &&& forall|i: int|
        0 <= i < m ==> match #[trigger] out[n + i] {
            SessionOutput::SyncEvent { from, event } => event@ == applied[i] && (local matches Some(p)
                ==> from == p),
            _ => false,
        }
    &&& forall|i: int|
        0 <= i < ids.len() ==> #[trigger] out[n + m + i] == SessionOutput::Connection(
            timeout_report(ids[i], reg.peers[ids[i]]),
        )
}

/// A P2P session: its peers and, once set up, its event synchronisation.
pub struct P2PSession {
    session_id: SessionId,
    peer_registry: PeerRegistry,
    event_sync: Option<EventSyncManager>,
    dispatches: Vec<Dispatch>,
}

impl View for P2PSession {
    type V = P2PSessionView;

    closed spec fn view(&self) -> P2PSessionView {
        P2PSessionView {
            session_id: self.session_id,
            registry: self.peer_registry@,
            sync: match self.event_sync {
                Some(s) => Some(s@),
                None => None,
            },
            dispatches: dispatch_views(self.dispatches@),
        }
    }
}

impl P2PSession {
    pub open spec fn wf(&self) -> bool {
        self@.wf()
    }

    /// A session with no peers and no synchronisation yet; disconnected
    /// peers get 30 seconds.
    pub fn new(session_id: SessionId) -> (s: Self)
        ensures
            s.wf(),
            s@ == (P2PSessionView {
                session_id,
                registry: PeerRegistryView { peers: Map::empty(), grace_period_ms: DEFAULT_GRACE_PERIOD_MS },
                sync: None,
                dispatches: Seq::empty(),
            }),
    {
        let s = P2PSession {
            session_id,
            peer_registry: PeerRegistry::with_grace_period(DEFAULT_GRACE_PERIOD_MS),
            event_sync: None,
            dispatches: Vec::new(),
        };
        proof {
            assert(s@.dispatches =~= Seq::<DispatchView>::empty());
        }
        s
    }

    /// Sets up synchronisation as the host of `lobby_id`.
    pub fn init_sync_as_host(&mut self, lobby_id: Uuid)
        ensures
            final(self).wf(),
            final(self)@ == (P2PSessionView {
                sync: Some(SyncView {
                    lobby_id,
                    is_host: true,
                    log: crate::p2p::sync_manager::empty_log(),
                    pending: Map::empty(),
                }),
                ..old(self)@
            }),
    {
        self.event_sync = Some(EventSyncManager::new_host(lobby_id));
    }

    /// Sets up synchronisation as a guest of `lobby_id`.
    pub fn init_sync_as_guest(&mut self, lobby_id: Uuid)
        ensures
            final(self).wf(),
            final(self)@ == (P2PSessionView {
                sync: Some(SyncView {
                    lobby_id,
                    is_host: false,
                    log: crate::p2p::sync_manager::empty_log(),
                    pending: Map::empty(),
                }),
                ..old(self)@
            }),
    {
        self.event_sync = Some(EventSyncManager::new_guest(lobby_id));
    }

    /// Queues a sync message.
    fn dispatch(&mut self, to: Option<PeerId>, message: SyncMessage)
        ensures
            final(self)@ == (P2PSessionView {
                dispatches: old(self)@.dispatches.push(DispatchView { to, message: message@ }),
                ..old(self)@
            }),
    {
        let ghost before = self.dispatches@;
        let d = Dispatch { to, message };
        let ghost dv = d@;
        self.dispatches.push(d);
        proof {
            assert(dispatch_views(self.dispatches@) =~= dispatch_views(before).push(dv));
        }
    }

    /// Takes the sync messages queued for sending, oldest first.
    pub fn drain_dispatches(&mut self) -> (v: Vec<Dispatch>)
        ensures
            final(self).wf() == old(self).wf(),
            dispatch_views(v@) == old(self)@.dispatches,
            final(self)@ == (P2PSessionView { dispatches: Seq::empty(), ..old(self)@ }),
    {
        let mut taken: Vec<Dispatch> = Vec::new();
        std::mem::swap(&mut taken, &mut self.dispatches);
        proof {
            assert(dispatch_views(self.dispatches@) =~= Seq::<DispatchView>::empty());
        }
        taken
    }

    pub fn session_id(&self) -> (id: &SessionId)
        ensures
            *id == self@.session_id,
    {
        &self.session_id
    }

    /// Numbers a change, logs it and broadcasts it (host only; needs
    /// synchronisation set up).
    pub fn create_event(&mut self, event: DomainEvent) -> (r: Result<(), P2PError>)
        requires
            old(self).wf(),
            old(self)@.sync is Some && old(self)@.sync->0.is_host ==> old(self)@.sync->0.log.next_sequence < u64::MAX,
        ensures
            final(self).wf(),
            match old(self)@.sync {
                None => final(self)@ == old(self)@ && connection_failed(r, "Event sync not initialized"@),
                Some(sv) => if !sv.is_host {
                    final(self)@ == old(self)@ && connection_failed(
                        r,
                        "Failed to create event: "@ + SyncError::NotHost.name_spec(),
                    )
                } else {
                    r is Ok && exists|t: u64| final(self)@ == #[trigger] old(self)@.after_event(sv, event@, t)
                },
            },
    {
        let mut slot: Option<EventSyncManager> = None;
        std::mem::swap(&mut slot, &mut self.event_sync);
        match slot {
            None => Err(P2PError::ConnectionFailed(String::from_str("Event sync not initialized"))),
            Some(sync) => {
                let mut sync = sync;
                let ghost sv = sync@;
                let ghost ev = event@;
                let ghost s = sv.log.next_sequence;
                let result = sync.create_event(event);
                self.event_sync = Some(sync);
                match result {
                    Ok(m) => {
                        let ghost t = choose|t: u64|
                            self.event_sync->0@ == (SyncView {
                                log: (EventLogView { next_sequence: (s + 1) as u64, ..sv.log }).add(
                                    #[trigger] numbered(s, sv.lobby_id, t, ev),
                                ),
                                ..sv
                            });
                        match m {
                            SyncMessage::EventBroadcast { event } => {
                                self.dispatch(None, SyncMessage::EventBroadcast { event });
                                proof {
                                    assert(self@ == old(self)@.after_event(sv, ev, t));
                                }
                            },
                            _ => {},
                        }
                        Ok(())
                    },
                    Err(e) => Err(
                        P2PError::ConnectionFailed(
                            String::from_str("Failed to create event: ").concat(e.name().as_str()),
                        ),
                    ),
                }
            },
        }
    }

    /// Sends a peer the full state: the snapshot and every logged event
    /// (host only; needs synchronisation set up).
    pub fn send_full_sync(&mut self, to_peer: PeerId, snapshot: LobbySnapshot) -> (r: Result<(), P2PError>)
        requires
            old(self).wf(),
        ensures
            final(self).wf(),
            match old(self)@.sync {
                None => final(self)@ == old(self)@ && connection_failed(r, "Event sync not initialized"@),
                Some(sv) => if !sv.is_host {
                    final(self)@ == old(self)@ && connection_failed(
                        r,
                        "Failed to create full sync: "@ + SyncError::NotHost.name_spec(),
                    )
                } else {
                    r is Ok && final(self)@ == (P2PSessionView {
                        dispatches: old(self)@.dispatches.push(
                            DispatchView {
                                to: Some(to_peer),
                                message: SyncMessageView::FullSyncResponse {
                                    snapshot: snapshot@,
                                    events: sv.log.events,
                                },
                            },
                        ),
                        ..old(self)@
                    })
                },
            },
    {
        let response = match &self.event_sync {
            None => {
                return Err(P2PError::ConnectionFailed(String::from_str("Event sync not initialized")));
            },
            Some(sync) => sync.create_full_sync_response(0, snapshot),
        };
        match response {
            Ok(m) => {
                self.dispatch(Some(to_peer), m);
                Ok(())
            },
            Err(e) => Err(
                P2PError::ConnectionFailed(
                    String::from_str("Failed to create full sync: ").concat(e.name().as_str()),
                ),
            ),
        }
    }

    /// Records the participant a known peer stands for; an unknown peer is
    /// ignored.
    pub fn register_peer_participant(&mut self, peer_id: PeerId, participant_id: Uuid, name: String, is_host: bool)
        ensures
            final(self).wf() == old(self).wf(),
            final(self)@ == (P2PSessionView {
                registry: old(self)@.registry.with_peer(
                    peer_id.0,
                    old(self)@.registry.peers[peer_id.0].with_info(participant_id, name@, is_host),
                ),
                ..old(self)@
            }),
    {
        match self.peer_registry.get_peer_mut(&peer_id) {
            Some(state) => state.set_participant_info(participant_id, name, is_host),
            None => {},
        }
    }

    /// The participant of a peer, when known.
    pub fn find_participant_by_peer(&self, peer_id: &PeerId) -> (r: Option<Uuid>)
        ensures
            r == (if self@.registry.peers.contains_key(peer_id.0) {
                self@.registry.peers[peer_id.0].participant_id
            } else {
                None
            }),
    {
        match self.peer_registry.get_peer(peer_id) {
            Some(state) => state.participant_id,
            None => None,
        }
    }

    /// Some peer standing for `participant_id`, if there is one.
    pub fn find_peer_by_participant(&self, participant_id: Uuid) -> (r: Option<PeerId>)
        ensures
            match r {
                Some(p) => self@.registry.peers.contains_key(p.0)
                    && self@.registry.peers[p.0].participant_id == Some(participant_id),
                None => forall|k: Uuid| #[trigger]
                    self@.registry.peers.contains_key(k) ==> self@.registry.peers[k].participant_id
                        != Some(participant_id),
            },
    {
        self.peer_registry.find_by_participant_id(participant_id)
    }

    /// Whether a peer is a host whose grace period has not run out.
    pub fn is_peer_host(&self, peer_id: &PeerId) -> (b: bool)
        ensures
            b == self@.registry.live_host(peer_id.0),
    {
        self.peer_registry.is_peer_host(peer_id)
    }

    /// Some host peer whose grace period has not run out, if there is one.
    pub fn find_host_peer(&self) -> (r: Option<PeerId>)
        ensures
            match r {
                Some(p) => self@.registry.live_host(p.0),
                None => forall|k: Uuid| !(#[trigger] self@.registry.live_host(k)),
            },
    {
        match self.peer_registry.find_host() {
            Some((p, _)) => Some(p),
            None => None,
        }
    }

    /// Handles one arrival at time `now`; events that synchronisation
    /// applied are added to `applied`. Answers the stamp of a full state's
    /// creation event.
    fn handle_arrival(&mut self, a: Arrival, now: u64, applied: &mut Vec<LobbyEvent>) -> (res: (ConnectionEvent, Ghost<u64>))
        requires
            old(self).wf(),
        ensures
            res.0 == a.event,
            final(self).wf(),
            final(self)@ == old(self)@.on_arrival(a, now, res.1@).0,
            event_views(final(applied)@) == event_views(old(applied)@) + old(self)@.on_arrival(a, now, res.1@).1,
    {
        let ghost a0 = a;
        let Arrival { event, message } = a;
        let ghost mut t: u64 = 0;
        proof {
            assert(event_views(applied@) =~= event_views(applied@) + Seq::<LobbyEventView>::empty());
        }
        match &event {
            ConnectionEvent::PeerConnected(p) => {
                self.peer_registry.add_peer_at(*p, now);
            },
            ConnectionEvent::MessageReceived { from, .. } => {
                let from = *from;
                self.peer_registry.update_last_seen_at(&from, now);
                let mut slot: Option<EventSyncManager> = None;
                std::mem::swap(&mut slot, &mut self.event_sync);
                match slot {
                    None => {},
                    Some(sync) => {
                        let mut sync = sync;
                        match message {
                            Some(m) => {
                                let ghost sv = sync@;
                                let ghost mm = m;
                                let r = sync.handle_message(from, m);
                                let ghost tt = choose|tt: u64| (sync@, effect_of(r)) == sync_effect(sv, from, mm, tt);
                                proof {
                                    t = tt;
                                }
                                self.event_sync = Some(sync);
                                match r {
                                    Ok(crate::p2p::sync_manager::SyncResponse::ApplyEvents { events }) => {
                                        let mut events = events;
                                        let ghost before = applied@;
                                        let ghost evs = events@;
                                        applied.append(&mut events);
                                        proof {
                                            assert(event_views(applied@) =~= event_views(before) + event_views(evs));
                                        }
                                    },
                                    Ok(crate::p2p::sync_manager::SyncResponse::ApplySnapshot { events, .. }) => {
                                        let mut events = events;
                                        let ghost before = applied@;
                                        let ghost evs = events@;
                                        applied.append(&mut events);
                                        proof {
                                            assert(event_views(applied@) =~= event_views(before) + event_views(evs));
                                        }
                                    },
                                    Ok(crate::p2p::sync_manager::SyncResponse::SendMessage { to, message }) => {
                                        self.dispatch(to, message);
                                    },
                                    _ => {},
                                }
                            },
                            None => {
                                self.event_sync = Some(sync);
                            },
                        }
                    },
                }
            },
            ConnectionEvent::PeerDisconnected(p) => {
                self.peer_registry.mark_peer_disconnected_at(p, now);
            },
            _ => {},
        }
        (event, Ghost(t))
    }

    /// Handles what arrived at time `now`: peers are registered, seen or
    /// marked disconnected, sync messages are handled (once synchronisation
    /// is set up); then the timed-out peers are reported and removed.
    /// Answers each arrival's event, then each event that synchronisation
    /// applied (as coming from `local`, or from a fresh random peer when
    /// there is none), then a report for each timed-out peer.
    pub fn poll_events_at(&mut self, arrivals: Vec<Arrival>, local: Option<PeerId>, now: u64) -> (out: Vec<SessionOutput>)
        requires
            old(self).wf(),
        ensures
            final(self).wf(),
            old(self)@.polled(arrivals@, local, now, final(self)@, out@),
    {
        let ghost arrs = arrivals@;
        let total = arrivals.len();
        let mut rest = arrivals;
        let mut out: Vec<SessionOutput> = Vec::new();
        let mut applied: Vec<LobbyEvent> = Vec::new();
        let ghost mut ts: Seq<u64> = Seq::empty();
        let mut i: usize = 0;
        proof {
            assert(arrs.skip(0) =~= arrs);
            assert(event_views(applied@) =~= Seq::<LobbyEventView>::empty());
        }
        while rest.len() > 0
            invariant
                self.wf(),
                i <= total,
                total == arrs.len(),
                rest@ == arrs.skip(i as int),
                ts.len() == i,
                self@ == old(self)@.on_arrivals(arrs.take(i as int), now, ts).0,
                event_views(applied@) == old(self)@.on_arrivals(arrs.take(i as int), now, ts).1,
                out@.len() == i,
                forall|k: int| 0 <= k < i ==> #[trigger] out@[k] == SessionOutput::Connection(arrs[k].event),
            decreases rest@.len(),
        {
            let a = rest.remove(0);
            proof {
                assert(a == arrs[i as int]);
                assert(rest@ =~= arrs.skip(i + 1));
            }
            let (ev, t) = self.handle_arrival(a, now, &mut applied);
            proof {
                let ts2 = ts.push(t@);
                let pre = arrs.take(i + 1);
                assert(pre.drop_last() =~= arrs.take(i as int));
                assert(pre.last() == arrs[i as int]);
                assert(forall|k: int| 0 <= k < i ==> ts2[k] == ts[k]);
                lemma_on_arrivals_stamps(old(self)@, arrs.take(i as int), now, ts, ts2);
                assert(ts2[pre.len() - 1] == t@);
                ts = ts2;
            }
            out.push(SessionOutput::Connection(ev));
            i += 1;
        }
        proof {
            assert(arrs.take(i as int) =~= arrs);
        }
        let ghost applied_all = event_views(applied@);
        let ghost n = arrs.len();
        let mut j: usize = 0;
        while j < applied.len()
            invariant
                j <= applied@.len(),
                event_views(applied@) == applied_all,
                out@.len() == n + j,
                forall|k: int| 0 <= k < n ==> #[trigger] out@[k] == SessionOutput::Connection(arrs[k].event),
                forall|k: int|
                    0 <= k < j ==> match #[trigger] out@[n + k] {
                        SessionOutput::SyncEvent { from, event } => event@ == applied_all[k] && (
                        local matches Some(p) ==> from == p),
                        _ => false,
                    },
            decreases applied@.len() - j,
        {
            let from = match local {
                Some(p) => p,
                None => PeerId(random_uuid()),
            };
            let e = applied[j].clone();
            out.push(SessionOutput::SyncEvent { from, event: e });
            j += 1;
        }
        let ghost r0 = self@;
        let timed_out = self.peer_registry.check_grace_periods_at(now);
        let ghost ids = crate::p2p::peer::peer_ids(timed_out@);
        let ghost g = self@;
        let ghost m = applied_all.len();
        proof {
            assert forall|k: int| 0 <= k < ids.len() implies g.registry.peers.contains_key(#[trigger] ids[k]) by {
                assert(ids.to_set().contains(ids[k]));
            }
            assert(ids.take(0) =~= Seq::<Uuid>::empty());
        }
        let mut k: usize = 0;
        while k < timed_out.len()
            invariant
                self.wf(),
                k <= timed_out@.len(),
                ids == crate::p2p::peer::peer_ids(timed_out@),
                ids.no_duplicates(),
                self@ == g.remove_all(ids.take(k as int)),
                forall|x: int| k <= x < ids.len() ==> self@.registry.peers.contains_key(#[trigger] ids[x]),
                forall|x: int| k <= x < ids.len() ==> self@.registry.peers[#[trigger] ids[x]] == g.registry.peers[ids[x]],
                out@.len() == n + m + k,
                forall|x: int| 0 <= x < n ==> #[trigger] out@[x] == SessionOutput::Connection(arrs[x].event),
                forall|x: int|
                    0 <= x < m ==> match #[trigger] out@[n + x] {
                        SessionOutput::SyncEvent { from, event } => event@ == applied_all[x] && (
                        local matches Some(p) ==> from == p),
                        _ => false,
                    },
                forall|x: int|
                    0 <= x < k ==> #[trigger] out@[n + m + x] == SessionOutput::Connection(
                        timeout_report(ids[x], g.registry.peers[ids[x]]),
                    ),
            decreases timed_out@.len() - k,
        {
            let peer_id = timed_out[k];
            proof {
                assert(ids[k as int] == peer_id.0);
                assert(ids.take(k + 1).drop_last() =~= ids.take(k as int));
                assert(ids.take(k + 1).last() == peer_id.0);
            }
            match self.peer_registry.get_peer(&peer_id) {
                Some(st) => {
                    out.push(
                        SessionOutput::Connection(
                            ConnectionEvent::PeerTimedOut {
                                peer_id,
                                participant_id: st.participant_id,
                                was_host: st.is_host,
                            },
                        ),
                    );
                },
                None => {},
            }
            self.peer_registry.remove_peer(&peer_id);
            proof {
                assert forall|x: int| k + 1 <= x < ids.len() implies self@.registry.peers.contains_key(
                    #[trigger] ids[x],
                ) && self@.registry.peers[ids[x]] == g.registry.peers[ids[x]] by {
                    assert(ids[x] != ids[k as int]);
                }
            }
            k += 1;
        }
        proof {
            assert(ids.take(k as int) =~= ids);
            assert(self@ == old(self)@.poll_state(arrs, now, ts, ids));
        }
        out
    }

    /// `poll_events_at` at the current time.
    pub fn poll_events(&mut self, arrivals: Vec<Arrival>, local: Option<PeerId>) -> (out: Vec<SessionOutput>)
        requires
            old(self).wf(),
        ensures
            final(self).wf(),
            exists|now: u64| old(self)@.polled(arrivals@, local, now, final(self)@, out@),
    {
        let now = now_millis();
        self.poll_events_at(arrivals, local, now)
    }
}

} // verus!
