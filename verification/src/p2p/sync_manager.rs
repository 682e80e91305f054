//! Event synchronisation: the host numbers events, guests apply them in
//! order, buffering what arrives early, and late joiners get a snapshot.

use vstd::prelude::*;
use std::collections::HashMap;
use crate::ident::Uuid;
use crate::domain::participant::{Participant, ParticipantView};
use crate::application::commands::{DomainCommand, DomainCommandView};
use crate::p2p::peer::PeerId;
use crate::p2p::event::{DomainEvent, EventView, LobbyEvent, LobbyEventView};
use crate::p2p::event_log::{EventLog, EventLogView};

verus! {

broadcast use vstd::std_specs::hash::group_hash_axioms;

/// The state of a lobby at some sequence number, for late joiners.
#[derive(Debug)]
pub struct LobbySnapshot {
    pub lobby_id: Uuid,
    pub name: String,
    pub host_id: Uuid,
    pub participants: Vec<Participant>,
    pub as_of_sequence: u64,
}

/// Messages sent between peers to keep lobbies in step.
#[derive(Debug)]
pub enum SyncMessage {
    /// Guest to host: run this command.
    CommandRequest { command: DomainCommand },
    /// Host to all: an event happened, with its sequence number.
    EventBroadcast { event: LobbyEvent },
    /// Guest to host: I just joined, send me the full state.
    RequestFullSync { lobby_id: Uuid },
    /// Host to guest: the full state.
    FullSyncResponse { snapshot: LobbySnapshot, events: Vec<LobbyEvent> },
}

/// What the caller should do after the sync manager handled a message.
#[derive(Debug)]
pub enum SyncResponse {
    /// Nothing to do.
    NoAction,
    /// Apply these events to the domain state, in order.
    ApplyEvents { events: Vec<LobbyEvent> },
    /// Apply the snapshot, then these events (full sync).
    ApplySnapshot { snapshot: LobbySnapshot, events: Vec<LobbyEvent> },
    /// Send this message to a peer, or to all when `to` is none.
    SendMessage { to: Option<PeerId>, message: SyncMessage },
    /// The application must provide a snapshot for a peer.
    NeedSnapshot { for_peer: PeerId, since_sequence: u64 },
    /// The host should run this command locally.
    ProcessCommand { command: DomainCommand },
}

/// Why the sync manager refused a request.
#[derive(Debug, Clone, Copy, PartialEq, Eq, Structural)]
pub enum SyncError {
    NotHost,
    AlreadyHost,
    WrongLobby,
    OutOfOrder,
}

impl SyncError {
    pub open spec fn message_spec(self) -> Seq<char> {
        match self {
            SyncError::NotHost => "Not the host"@,
            SyncError::AlreadyHost => "Already the host"@,
            SyncError::WrongLobby => "Wrong lobby"@,
            SyncError::OutOfOrder => "Event out of order"@,
        }
    }

    /// The variant's name, as `Debug` writes it.
    pub open spec fn name_spec(self) -> Seq<char> {
        match self {
            SyncError::NotHost => "NotHost"@,
            SyncError::AlreadyHost => "AlreadyHost"@,
            SyncError::WrongLobby => "WrongLobby"@,
            SyncError::OutOfOrder => "OutOfOrder"@,
        }
    }

    /// The variant's name.
    pub fn name(&self) -> (s: String)
        ensures
            s@ == self.name_spec(),
    {
        match self {
            SyncError::NotHost => String::from_str("NotHost"),
            SyncError::AlreadyHost => String::from_str("AlreadyHost"),
            SyncError::WrongLobby => String::from_str("WrongLobby"),
            SyncError::OutOfOrder => String::from_str("OutOfOrder"),
        }
    }

    /// The error's message text.
    pub fn message(&self) -> (s: String)
        ensures
            s@ == self.message_spec(),
    {
        match self {
            SyncError::NotHost => String::from_str("Not the host"),
            SyncError::AlreadyHost => String::from_str("Already the host"),
            SyncError::WrongLobby => String::from_str("Wrong lobby"),
            SyncError::OutOfOrder => String::from_str("Event out of order"),
        }
    }
}

/// What a snapshot is, with its participants as views.
pub struct LobbySnapshotView {
    pub lobby_id: Uuid,
    pub name: Seq<char>,
    pub host_id: Uuid,
    pub participants: Seq<ParticipantView>,
    pub as_of_sequence: u64,
}

impl View for LobbySnapshot {
    type V = LobbySnapshotView;

    open spec fn view(&self) -> LobbySnapshotView {
        LobbySnapshotView {
            lobby_id: self.lobby_id,
            name: self.name@,
            host_id: self.host_id,
            participants: self.participants@.map_values(|p: Participant| p@),
            as_of_sequence: self.as_of_sequence,
        }
    }
}

/// A sync message with its parts as views.
pub enum SyncMessageView {
    CommandRequest { command: DomainCommandView },
    EventBroadcast { event: LobbyEventView },
    RequestFullSync { lobby_id: Uuid },
    FullSyncResponse { snapshot: LobbySnapshotView, events: Seq<LobbyEventView> },
}

impl View for SyncMessage {
    type V = SyncMessageView;

    open spec fn view(&self) -> SyncMessageView {
        match self {
            SyncMessage::CommandRequest { command } => SyncMessageView::CommandRequest {
                command: command@,
            },
            SyncMessage::EventBroadcast { event } => SyncMessageView::EventBroadcast { event: event@ },
            SyncMessage::RequestFullSync { lobby_id } => SyncMessageView::RequestFullSync {
                lobby_id: *lobby_id,
            },
            SyncMessage::FullSyncResponse { snapshot, events } => SyncMessageView::FullSyncResponse {
                snapshot: snapshot@,
                events: event_views(events@),
            },
        }
    }
}

/// What the caller is asked to do after a message, as views.
pub enum SyncEffect {
    Nothing,
    Command(DomainCommandView),
    Events(Seq<LobbyEventView>),
    Snapshot(LobbySnapshotView, Seq<LobbyEventView>),
    Send(Option<PeerId>, SyncMessageView),
    NeedSnapshot(PeerId, u64),
    Failed(SyncError),
}

/// The changes of a sequence of events.
pub open spec fn changes(s: Seq<LobbyEventView>) -> Seq<EventView> {
    s.map_values(|e: LobbyEventView| e.event)
}

/// What a response asks for, as views.
pub open spec fn effect_of(r: Result<SyncResponse, SyncError>) -> SyncEffect {
    match r {
        Err(e) => SyncEffect::Failed(e),
        Ok(SyncResponse::NoAction) => SyncEffect::Nothing,
        Ok(SyncResponse::ApplyEvents { events }) => SyncEffect::Events(event_views(events@)),
        Ok(SyncResponse::ApplySnapshot { snapshot, events }) => SyncEffect::Snapshot(
            snapshot@,
            event_views(events@),
        ),
        Ok(SyncResponse::SendMessage { to, message }) => SyncEffect::Send(to, message@),
        Ok(SyncResponse::NeedSnapshot { for_peer, since_sequence }) => SyncEffect::NeedSnapshot(
            for_peer,
            since_sequence,
        ),
        Ok(SyncResponse::ProcessCommand { command }) => SyncEffect::Command(command@),
    }
}

/// An empty log that keeps 100 events.
pub open spec fn empty_log() -> EventLogView {
    EventLogView { max_size: 100, events: Seq::empty(), next_sequence: 1, highest_seen: 0 }
}

/// The state and what is asked for after `m` arrives from `from`; a full
/// state comes first with a creation event for its lobby stamped `t`.
pub open spec fn sync_effect(sv: SyncView, from: PeerId, m: SyncMessage, t: u64) -> (SyncView, SyncEffect) {
    match m {
        SyncMessage::CommandRequest { command } => (
            sv,
            if sv.is_host {
                SyncEffect::Command(command@)
            } else {
                SyncEffect::Nothing
            },
        ),
        SyncMessage::EventBroadcast { event } => if event@.lobby_id != sv.lobby_id {
            (sv, SyncEffect::Failed(SyncError::WrongLobby))
        } else {
            let (v2, out) = sv.receive(event@);
            (
                v2,
                match out {
                    Some(es) => SyncEffect::Events(es),
                    None => SyncEffect::Nothing,
                },
            )
        },
        SyncMessage::RequestFullSync { lobby_id } => if lobby_id != sv.lobby_id {
            (sv, SyncEffect::Failed(SyncError::WrongLobby))
        } else {
            (sv, SyncEffect::NeedSnapshot(from, 0))
        },
        SyncMessage::FullSyncResponse { snapshot, events } => (
            SyncView { log: empty_log().add_all(event_views(events@)), ..sv },
            SyncEffect::Snapshot(
                snapshot@,
                seq![
                    numbered(
                        0,
                        snapshot.lobby_id,
                        t,
                        EventView::LobbyCreated {
                            lobby_id: snapshot.lobby_id,
                            host_id: snapshot.host_id,
                            name: snapshot.name@,
                        },
                    ),
                ] + event_views(events@),
            ),
        ),
    }
}

/// The views of a sequence of events.
pub open spec fn event_views(s: Seq<LobbyEvent>) -> Seq<LobbyEventView> {
    s.map_values(|e: LobbyEvent| e@)
}

/// The views of a map of buffered events.
pub open spec fn pending_views(m: Map<u64, LobbyEvent>) -> Map<u64, LobbyEventView> {
    m.map_values(|e: LobbyEvent| e@)
}

/// An unsigned event with the given number, lobby, time and change.
pub open spec fn numbered(sequence: u64, lobby_id: Uuid, timestamp: u64, event: EventView) -> LobbyEventView {
    LobbyEventView { sequence, lobby_id, timestamp, event, signature: None }
}

/// What a sync manager is: its lobby, whether it is the host, its event
/// log, and the events that arrived early, by sequence number.
pub struct SyncView {
    pub lobby_id: Uuid,
    pub is_host: bool,
    pub log: EventLogView,
    pub pending: Map<u64, LobbyEventView>,
}

/// The number of the event that a log expects next.
pub open spec fn expected(log: EventLogView) -> int {
    log.highest_seen + 1
}

/// Applies, from `pending`, the event the log expects next, then the one
/// after, for as long as they are there: the resulting log, what stays
/// pending, and the events applied, in order.
pub open spec fn drain_pending(log: EventLogView, pending: Map<u64, LobbyEventView>) -> (
    EventLogView,
    Map<u64, LobbyEventView>,
    Seq<LobbyEventView>,
)
    decreases u64::MAX - log.highest_seen,
{
    if log.highest_seen < u64::MAX && pending.contains_key((log.highest_seen + 1) as u64)
        && pending[(log.highest_seen + 1) as u64].sequence == log.highest_seen + 1 {
        let k = (log.highest_seen + 1) as u64;
        let e = pending[k];
        let rest = drain_pending(log.add(e), pending.remove(k));
        (rest.0, rest.1, seq![e] + rest.2)
    } else {
        (log, pending, Seq::empty())
    }
}

impl SyncView {
    /// Every buffered event is filed under its own sequence number, the log
    /// keeps 100 events, and sequence numbers are assigned from 1.
    pub open spec fn wf(self) -> bool {
        &&& forall|k: u64| #[trigger] self.pending.contains_key(k) ==> self.pending[k].sequence == k
        &&& self.log.max_size == 100
        &&& self.log.next_sequence >= 1
    }

    /// The state and the response after an event broadcast for this lobby
    /// is received: the next expected event is applied together with the
    /// buffered ones that follow it; a later one is buffered; an older one
    /// is ignored.
    pub open spec fn receive(self, e: LobbyEventView) -> (SyncView, Option<Seq<LobbyEventView>>) {
        if e.sequence == expected(self.log) {
            let d = drain_pending(self.log.add(e), self.pending);
            (SyncView { log: d.0, pending: d.1, ..self }, Some(seq![e] + d.2))
        } else if e.sequence > expected(self.log) {
            (SyncView { pending: self.pending.insert(e.sequence, e), ..self }, None)
        } else {
            (self, None)
        }
    }
}

/// Proves that the events applied by `drain_pending` are numbered one after
/// another from the log's next expected number, that the log then expects
/// the number after the last of them, and that the buffer stays filed by
/// sequence number.
pub proof fn lemma_drain_consecutive(log: EventLogView, pending: Map<u64, LobbyEventView>)
    requires
        forall|k: u64| #[trigger] pending.contains_key(k) ==> pending[k].sequence == k,
    ensures
        ({
            let d = drain_pending(log, pending);
            &&& forall|i: int| 0 <= i < d.2.len() ==> (#[trigger] d.2[i]).sequence == expected(log) + i
            &&& d.0.highest_seen == log.highest_seen + d.2.len()
            &&& forall|k: u64| #[trigger] d.1.contains_key(k) ==> d.1[k].sequence == k
            &&& d.0.max_size == log.max_size && d.0.next_sequence == log.next_sequence
        }),
    decreases u64::MAX - log.highest_seen,
{
    if log.highest_seen < u64::MAX && pending.contains_key((log.highest_seen + 1) as u64)
        && pending[(log.highest_seen + 1) as u64].sequence == log.highest_seen + 1 {
        let k = (log.highest_seen + 1) as u64;
        let e = pending[k];
        lemma_drain_consecutive(log.add(e), pending.remove(k));
        let rest = drain_pending(log.add(e), pending.remove(k));
        let d = drain_pending(log, pending);
        assert(d.2 == seq![e] + rest.2);
        assert forall|i: int| 0 <= i < d.2.len() implies (#[trigger] d.2[i]).sequence == expected(log) + i by {
            if i > 0 {
                assert(d.2[i] == rest.2[i - 1]);
            }
        }
    }
}

/// Events are applied in order: whatever a guest applies on receiving an
/// event broadcast is numbered one after another from the number it
/// expected, the highest number seen then is that of the last applied event,
/// nothing is applied on an early or an old event, and the buffer stays filed
/// by sequence number.
pub proof fn lemma_receive_in_order(v: SyncView, e: LobbyEventView)
    requires
        v.wf(),
    ensures
        v.receive(e).0.wf(),
        match v.receive(e).1 {
            Some(applied) => {
                &&& applied.len() >= 1
                &&& applied[0] == e
                &&& forall|i: int| 0 <= i < applied.len() ==> (#[trigger] applied[i]).sequence == expected(v.log) + i
                &&& v.receive(e).0.log.highest_seen == v.log.highest_seen + applied.len()
            },
            None => e.sequence != expected(v.log) && v.receive(e).0.log == v.log,
        },
{
    if e.sequence == expected(v.log) {
        let l = v.log.add(e);
        lemma_drain_consecutive(l, v.pending);
        let d = drain_pending(l, v.pending);
        let applied = seq![e] + d.2;
        assert forall|i: int| 0 <= i < applied.len() implies (#[trigger] applied[i]).sequence == expected(v.log) + i by {
            if i > 0 {
                assert(applied[i] == d.2[i - 1]);
            }
        }
    }
}

/// Keeps a lobby's events in step between the host and the guests.
pub struct EventSyncManager {
    lobby_id: Uuid,
    is_host: bool,
    event_log: EventLog,
    pending_events: HashMap<u64, LobbyEvent>,
}

impl View for EventSyncManager {
    type V = SyncView;

    closed spec fn view(&self) -> SyncView {
        SyncView {
            lobby_id: self.lobby_id,
            is_host: self.is_host,
            log: self.event_log@,
            pending: pending_views(self.pending_events@),
        }
    }
}

impl EventSyncManager {
    pub open spec fn wf(&self) -> bool {
        self@.wf()
    }

    /// A sync manager for the host of `lobby_id`, with an empty log.
    pub fn new_host(lobby_id: Uuid) -> (m: Self)
        ensures
            m.wf(),
            m@ == (SyncView {
                lobby_id,
                is_host: true,
                log: EventLogView { max_size: 100, events: Seq::empty(), next_sequence: 1, highest_seen: 0 },
                pending: Map::empty(),
            }),
    {
        let m = EventSyncManager {
            lobby_id,
            is_host: true,
            event_log: EventLog::new(),
            pending_events: HashMap::new(),
        };
        proof {
            assert(m@.pending =~= Map::<u64, LobbyEventView>::empty());
        }
        m
    }

    /// A sync manager for a guest of `lobby_id`, with an empty log.
    pub fn new_guest(lobby_id: Uuid) -> (m: Self)
        ensures
            m.wf(),
            m@ == (SyncView {
                lobby_id,
                is_host: false,
                log: EventLogView { max_size: 100, events: Seq::empty(), next_sequence: 1, highest_seen: 0 },
                pending: Map::empty(),
            }),
    {
        let m = EventSyncManager {
            lobby_id,
            is_host: false,
            event_log: EventLog::new(),
            pending_events: HashMap::new(),
        };
        proof {
            assert(m@.pending =~= Map::<u64, LobbyEventView>::empty());
        }
        m
    }

    /// Makes this manager the host's (after delegation).
    pub fn promote_to_host(&mut self)
        requires
            old(self).wf(),
        ensures
            final(self).wf(),
            final(self)@ == (SyncView { is_host: true, ..old(self)@ }),
    {
        self.is_host = true;
    }

    /// The last sequence number: the last one assigned on the host, the
    /// highest one seen on a guest.
    pub fn current_sequence(&self) -> (s: u64)
        requires
            self.wf(),
        ensures
            s == (if self@.is_host {
                self@.log.next_sequence - 1
            } else {
                self@.log.highest_seen as int
            }),
    {
        if self.is_host {
            self.event_log.next_sequence() - 1
        } else {
            self.event_log.highest_sequence()
        }
    }

    /// Numbers a new event and logs it (host only); the answer is the
    /// broadcast of it as the log keeps it.
    pub fn create_event(&mut self, event: DomainEvent) -> (r: Result<SyncMessage, SyncError>)
        requires
            old(self).wf(),
            old(self)@.is_host ==> old(self)@.log.next_sequence < u64::MAX,
        ensures
            final(self).wf(),
            !old(self)@.is_host ==> r == Err::<SyncMessage, SyncError>(SyncError::NotHost)
                && final(self)@ == old(self)@,
            old(self)@.is_host ==> {
                let s = old(self)@.log.next_sequence;
                &&& r matches Ok(SyncMessage::EventBroadcast { event: e })
                &&& e@.sequence == s
                &&& exists|t: u64|
                    final(self)@ == (SyncView {
                        log: (EventLogView { next_sequence: (s + 1) as u64, ..old(self)@.log }).add(
                            #[trigger] numbered(s, old(self)@.lobby_id, t, event@),
                        ),
                        ..old(self)@
                    })
                &&& e@ == final(self)@.log.events[final(self)@.log.first_index(s as int)]
            },
    {
        if !self.is_host {
            return Err(SyncError::NotHost);
        }
        let ghost ev = event@;
        let lobby_event = LobbyEvent::without_sequence(self.lobby_id, event);
        let ghost t = lobby_event@.timestamp;
        let sequence = self.event_log.append(lobby_event);
        proof {
            let l = self.event_log@;
            assert(l.events.len() > 0);
            assert(l.events[l.events.len() - 1].sequence == sequence);
            assert(l.has(sequence as int));
            assert(LobbyEventView { sequence, ..lobby_event@ } == numbered(sequence, self.lobby_id, t, ev));
            assert(self@ == (SyncView {
                log: (EventLogView { next_sequence: (sequence + 1) as u64, ..old(self)@.log }).add(
                    numbered(sequence, old(self)@.lobby_id, t, ev),
                ),
                ..old(self)@
            }));
        }
        match self.event_log.get(sequence) {
            Some(e) => {
                proof {
                    let l = self.event_log@;
                    let i = choose|i: int|
                        0 <= i < l.events.len() && l.events[i] == e@ && e@.sequence == sequence
                            && forall|j: int| 0 <= j < i ==> l.events[j].sequence != sequence;
                    let w = l.first_index(sequence as int);
                    assert(0 <= w < l.events.len() && l.events[w].sequence == sequence);
                    if w < i {
                        assert(l.events[w].sequence != sequence);
                    }
                    if i < w {
                        assert(l.events[i].sequence != sequence);
                    }
                    assert(w == i);
                }
                Ok(SyncMessage::EventBroadcast { event: e.clone() })
            },
            None => Err(SyncError::OutOfOrder),
        }
    }

    /// Applies buffered events for as long as the next expected one is
    /// there, answering them in order.
    fn try_apply_pending_events(&mut self) -> (applied: Vec<LobbyEvent>)
        requires
            old(self).wf(),
        ensures
            final(self).wf(),
            ({
                let d = drain_pending(old(self)@.log, old(self)@.pending);
                &&& final(self)@ == (SyncView { log: d.0, pending: d.1, ..old(self)@ })
                &&& event_views(applied@) == d.2
            }),
    {
        let ghost target = drain_pending(self@.log, self@.pending);
        proof {
            lemma_drain_consecutive(self@.log, self@.pending);
        }
        let mut applied: Vec<LobbyEvent> = Vec::new();
        loop
            invariant
                self.wf(),
                self.lobby_id == old(self)@.lobby_id,
                self.is_host == old(self)@.is_host,
                drain_pending(self@.log, self@.pending).0 == target.0,
                drain_pending(self@.log, self@.pending).1 == target.1,
                event_views(applied@) + drain_pending(self@.log, self@.pending).2 == target.2,
            ensures
                self.wf(),
                self@ == (SyncView { log: target.0, pending: target.1, ..old(self)@ }),
                event_views(applied@) == target.2,
            decreases u64::MAX - self@.log.highest_seen,
        {
            let h = self.event_log.highest_sequence();
            if h == u64::MAX {
                proof {
                    assert(event_views(applied@) + Seq::<LobbyEventView>::empty() =~= event_views(applied@));
                }
                break;
            }
            let next = h + 1;
            let ghost log0 = self@.log;
            let ghost pend0 = self@.pending;
            match self.pending_events.remove(&next) {
                Some(event) => {
                    proof {
                        assert(pend0.contains_key(next));
                        assert(pend0[next] == event@);
                        assert(self@.pending =~= pend0.remove(next));
                        assert(drain_pending(log0, pend0).2 == seq![event@] + drain_pending(
                            log0.add(event@),
                            pend0.remove(next),
                        ).2);
                    }
                    let ghost prev = event_views(applied@);
                    self.event_log.add_event(event.clone());
                    applied.push(event);
                    proof {
                        assert(event_views(applied@) =~= prev.push(event@));
                        assert(prev.push(event@) + drain_pending(self@.log, self@.pending).2 =~= prev + (
                        seq![event@] + drain_pending(self@.log, self@.pending).2));
                    }
                },
                None => {
                    proof {
                        assert(!pend0.contains_key(next));
                        assert(self@.pending =~= pend0);
                        assert(event_views(applied@) + Seq::<LobbyEventView>::empty() =~= event_views(applied@));
                    }
                    break;
                },
            }
        }
        applied
    }

    /// Handles an event broadcast from the host.
    fn handle_event_broadcast(&mut self, event: LobbyEvent) -> (r: Result<SyncResponse, SyncError>)
        requires
            old(self).wf(),
        ensures
            final(self).wf(),
            event@.lobby_id != old(self)@.lobby_id ==> r == Err::<SyncResponse, SyncError>(
                SyncError::WrongLobby,
            ) && final(self)@ == old(self)@,
            event@.lobby_id == old(self)@.lobby_id ==> final(self)@ == old(self)@.receive(event@).0
                && match old(self)@.receive(event@).1 {
                Some(es) => r matches Ok(SyncResponse::ApplyEvents { events }) && event_views(
                    events@,
                ) == es,
                None => r matches Ok(SyncResponse::NoAction),
            },
    {
        if event.lobby_id != self.lobby_id {
            return Err(SyncError::WrongLobby);
        }
        let h = self.event_log.highest_sequence();
        if event.sequence > h && event.sequence - h == 1 {
            self.event_log.add_event(event.clone());
            let mut applied = self.try_apply_pending_events();
            let mut events: Vec<LobbyEvent> = Vec::new();
            let ghost ev = event@;
            events.push(event);
            let ghost rest = applied@;
            events.append(&mut applied);
            proof {
                assert(event_views(events@) =~= seq![ev] + event_views(rest));
            }
            Ok(SyncResponse::ApplyEvents { events })
        } else if event.sequence > h {
            let ghost before = self.pending_events@;
            let ghost ev = event@;
            self.pending_events.insert(event.sequence, event);
            proof {
                assert(pending_views(self.pending_events@) =~= pending_views(before).insert(
                    ev.sequence,
                    ev,
                ));
            }
            Ok(SyncResponse::NoAction)
        } else {
            Ok(SyncResponse::NoAction)
        }
    }

    /// Handles the full state sent to a late joiner: the log starts over
    /// with the sent events, and the answer is to apply the snapshot after a
    /// creation event for its lobby (number 0), then the sent events.
    fn handle_full_sync_response(&mut self, snapshot: LobbySnapshot, events: Vec<LobbyEvent>) -> (r:
        Result<SyncResponse, SyncError>)
        requires
            old(self).wf(),
        ensures
            final(self).wf(),
            final(self)@ == (SyncView {
                log: EventLogView {
                    max_size: 100,
                    events: Seq::empty(),
                    next_sequence: 1,
                    highest_seen: 0,
                }.add_all(event_views(events@)),
                ..old(self)@
            }),
            ({
                &&& r matches Ok(SyncResponse::ApplySnapshot { snapshot: s, events: all })
                &&& s == snapshot
                &&& event_views(all@).len() == events@.len() + 1
                &&& event_views(all@).drop_first() == event_views(events@)
                &&& event_views(all@)[0].sequence == 0
                &&& event_views(all@)[0].lobby_id == snapshot.lobby_id
                &&& event_views(all@)[0].event == (EventView::LobbyCreated {
                    lobby_id: snapshot.lobby_id,
                    host_id: snapshot.host_id,
                    name: snapshot.name@,
                })
                &&& event_views(all@)[0].signature is None
            }),
    {
        self.event_log = EventLog::new();
        let ghost empty = self.event_log@;
        let mut i: usize = 0;
        while i < events.len()
            invariant
                i <= events@.len(),
                self.event_log@ == empty.add_all(event_views(events@).take(i as int)),
                self.lobby_id == old(self)@.lobby_id,
                self.is_host == old(self)@.is_host,
                self.pending_events@ == old(self).pending_events@,
                old(self).wf(),
                empty == (EventLogView {
                    max_size: 100,
                    events: Seq::empty(),
                    next_sequence: 1,
                    highest_seen: 0,
                }),
            decreases events@.len() - i,
        {
            let e = events[i].clone();
            self.event_log.add_event(e);
            proof {
                let t = event_views(events@).take(i + 1);
                assert(t.drop_last() =~= event_views(events@).take(i as int));
                assert(t.last() == events@[i as int]@);
            }
            i += 1;
        }
        proof {
            assert(event_views(events@).take(events@.len() as int) =~= event_views(events@));
            empty.lemma_add_all_keeps(event_views(events@));
        }
        let create = DomainEvent::LobbyCreated {
            lobby_id: snapshot.lobby_id,
            host_id: snapshot.host_id,
            name: snapshot.name.clone(),
        };
        let lobby_event = LobbyEvent::new(0, snapshot.lobby_id, create);
        let mut all: Vec<LobbyEvent> = Vec::new();
        all.push(lobby_event);
        let mut rest = events;
        let ghost sent = rest@;
        all.append(&mut rest);
        proof {
            assert(event_views(all@).drop_first() =~= event_views(sent));
        }
        Ok(SyncResponse::ApplySnapshot { snapshot, events: all })
    }

    /// Handles a message from peer `from`.
    pub fn handle_message(&mut self, from: PeerId, message: SyncMessage) -> (r: Result<
        SyncResponse,
        SyncError,
    >)
        requires
            old(self).wf(),
        ensures
            final(self).wf(),
            exists|t: u64| (final(self)@, effect_of(r)) == #[trigger] sync_effect(old(self)@, from, message, t),
            match message {
                SyncMessage::CommandRequest { command } => final(self)@ == old(self)@ && if old(
                    self,
                )@.is_host {
                    r == Ok::<SyncResponse, SyncError>(SyncResponse::ProcessCommand { command })
                } else {
                    r matches Ok(SyncResponse::NoAction)
                },
                SyncMessage::EventBroadcast { event } => if event@.lobby_id != old(self)@.lobby_id {
                    r == Err::<SyncResponse, SyncError>(SyncError::WrongLobby) && final(self)@
                        == old(self)@
                } else {
                    final(self)@ == old(self)@.receive(event@).0 && match old(self)@.receive(
                        event@,
                    ).1 {
                        Some(es) => r matches Ok(SyncResponse::ApplyEvents { events })
                            && event_views(events@) == es,
                        None => r matches Ok(SyncResponse::NoAction),
                    }
                },
                SyncMessage::RequestFullSync { lobby_id } => final(self)@ == old(self)@ && if lobby_id
                    != old(self)@.lobby_id {
                    r == Err::<SyncResponse, SyncError>(SyncError::WrongLobby)
                } else {
                    r == Ok::<SyncResponse, SyncError>(
                        SyncResponse::NeedSnapshot { for_peer: from, since_sequence: 0 },
                    )
                },
                SyncMessage::FullSyncResponse { snapshot, events } => {
                    &&& final(self)@ == (SyncView {
                        log: EventLogView {
                            max_size: 100,
                            events: Seq::empty(),
                            next_sequence: 1,
                            highest_seen: 0,
                        }.add_all(event_views(events@)),
                        ..old(self)@
                    })
                    &&& r matches Ok(SyncResponse::ApplySnapshot { snapshot: s, events: all })
                    &&& s == snapshot
                    &&& event_views(all@).len() == events@.len() + 1
                    &&& event_views(all@).drop_first() == event_views(events@)
                    &&& event_views(all@)[0].sequence == 0
                    &&& event_views(all@)[0].lobby_id == snapshot.lobby_id
                    &&& event_views(all@)[0].event == (EventView::LobbyCreated {
                        lobby_id: snapshot.lobby_id,
                        host_id: snapshot.host_id,
                        name: snapshot.name@,
                    })
                    &&& event_views(all@)[0].signature is None
                },
            },
    {
        let ghost m0 = message;
        let r = self.handle_message_inner(from, message);
        let ghost rr = r;
        proof {
            match m0 {
                SyncMessage::FullSyncResponse { snapshot, events } => {
                    match rr {
                        Ok(SyncResponse::ApplySnapshot { snapshot: s, events: all }) => {
                            let t = event_views(all@)[0].timestamp;
                            let a = event_views(all@);
                            let b = seq![
                                numbered(
                                    0,
                                    snapshot.lobby_id,
                                    t,
                                    EventView::LobbyCreated {
                                        lobby_id: snapshot.lobby_id,
                                        host_id: snapshot.host_id,
                                        name: snapshot.name@,
                                    },
                                ),
                            ] + event_views(events@);
                            assert(a.len() == b.len());
                            assert forall|i: int| 0 <= i < a.len() implies a[i] == b[i] by {
                                if i > 0 {
                                    assert(a.drop_first()[i - 1] == a[i]);
                                }
                            }
                            assert(a =~= b);
                            assert((self@, effect_of(rr)) == sync_effect(old(self)@, from, m0, t));
                        },
                        _ => {},
                    }
                },
                _ => {
                    assert((self@, effect_of(rr)) == sync_effect(old(self)@, from, m0, 0));
                },
            }
        }
        r
    }

    fn handle_message_inner(&mut self, from: PeerId, message: SyncMessage) -> (r: Result<
        SyncResponse,
        SyncError,
    >)
        requires
            old(self).wf(),
        ensures
            final(self).wf(),
            match message {
                SyncMessage::CommandRequest { command } => final(self)@ == old(self)@ && if old(
                    self,
                )@.is_host {
                    r == Ok::<SyncResponse, SyncError>(SyncResponse::ProcessCommand { command })
                } else {
                    r matches Ok(SyncResponse::NoAction)
                },
                SyncMessage::EventBroadcast { event } => if event@.lobby_id != old(self)@.lobby_id {
                    r == Err::<SyncResponse, SyncError>(SyncError::WrongLobby) && final(self)@
                        == old(self)@
                } else {
                    final(self)@ == old(self)@.receive(event@).0 && match old(self)@.receive(
                        event@,
                    ).1 {
                        Some(es) => r matches Ok(SyncResponse::ApplyEvents { events })
                            && event_views(events@) == es,
                        None => r matches Ok(SyncResponse::NoAction),
                    }
                },
                SyncMessage::RequestFullSync { lobby_id } => final(self)@ == old(self)@ && if lobby_id
                    != old(self)@.lobby_id {
                    r == Err::<SyncResponse, SyncError>(SyncError::WrongLobby)
                } else {
                    r == Ok::<SyncResponse, SyncError>(
                        SyncResponse::NeedSnapshot { for_peer: from, since_sequence: 0 },
                    )
                },
                SyncMessage::FullSyncResponse { snapshot, events } => {
                    &&& final(self)@ == (SyncView {
                        log: empty_log().add_all(event_views(events@)),
                        ..old(self)@
                    })
                    &&& r matches Ok(SyncResponse::ApplySnapshot { snapshot: s, events: all })
                    &&& s == snapshot
                    &&& event_views(all@).len() == events@.len() + 1
                    &&& event_views(all@).drop_first() == event_views(events@)
                    &&& event_views(all@)[0].sequence == 0
                    &&& event_views(all@)[0].lobby_id == snapshot.lobby_id
                    &&& event_views(all@)[0].event == (EventView::LobbyCreated {
                        lobby_id: snapshot.lobby_id,
                        host_id: snapshot.host_id,
                        name: snapshot.name@,
                    })
                    &&& event_views(all@)[0].signature is None
                },
            },
    {
        match message {
            SyncMessage::CommandRequest { command } => {
                if !self.is_host {
                    return Ok(SyncResponse::NoAction);
                }
                Ok(SyncResponse::ProcessCommand { command })
            },
            SyncMessage::EventBroadcast { event } => self.handle_event_broadcast(event),
            SyncMessage::RequestFullSync { lobby_id } => {
                if lobby_id != self.lobby_id {
                    return Err(SyncError::WrongLobby);
                }
                Ok(SyncResponse::NeedSnapshot { for_peer: from, since_sequence: 0 })
            },
            SyncMessage::FullSyncResponse { snapshot, events } => {
                self.handle_full_sync_response(snapshot, events)
            },
        }
    }

    /// The full state for a late joiner (host only): the snapshot with the
    /// kept events, all of them or those after `since_sequence`.
    pub fn create_full_sync_response(&self, since_sequence: u64, snapshot: LobbySnapshot) -> (r:
        Result<SyncMessage, SyncError>)
        ensures
            !self@.is_host ==> r == Err::<SyncMessage, SyncError>(SyncError::NotHost),
            self@.is_host ==> {
                &&& r matches Ok(SyncMessage::FullSyncResponse { snapshot: s, events })
                &&& s == snapshot
                &&& event_views(events@) == (if since_sequence == 0 {
                    self@.log.events
                } else {
                    self@.log.since(since_sequence)
                })
            },
    {
        if !self.is_host {
            return Err(SyncError::NotHost);
        }
        let events = if since_sequence == 0 {
            self.event_log.all_events()
        } else {
            self.event_log.get_since(since_sequence)
        };
        proof {
            assert(event_views(events@) =~= events@.map_values(|e: LobbyEvent| e@));
        }
        Ok(SyncMessage::FullSyncResponse { snapshot, events })
    }

    /// A request for the full state (guest only).
    pub fn request_full_sync(&self) -> (r: Result<SyncMessage, SyncError>)
        ensures
            self@.is_host ==> r == Err::<SyncMessage, SyncError>(SyncError::AlreadyHost),
            !self@.is_host ==> r == Ok::<SyncMessage, SyncError>(
                SyncMessage::RequestFullSync { lobby_id: self@.lobby_id },
            ),
    {
        if self.is_host {
            return Err(SyncError::AlreadyHost);
        }
        Ok(SyncMessage::RequestFullSync { lobby_id: self.lobby_id })
    }

    /// Copies of the logged events, oldest first.
    pub fn all_events(&self) -> (v: Vec<LobbyEvent>)
        ensures
            event_views(v@) == self@.log.events,
    {
        let v = self.event_log.all_events();
        proof {
            assert(event_views(v@) =~= v@.map_values(|e: LobbyEvent| e@));
        }
        v
    }

    /// How many events wait for a gap to be filled.
    pub fn pending_count(&self) -> (n: usize)
        ensures
            n == self@.pending.dom().len(),
    {
        proof {
            assert(self@.pending.dom() =~= self.pending_events@.dom());
        }
        self.pending_events.len()
    }
}

} // verus!
