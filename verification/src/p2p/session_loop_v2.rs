//! The session over the reliable transport: the host runs commands and
//! sends the guests, as commands, what changed; guests run what arrives.
//!
//! Commands and snapshots travel as JSON. The caller owns the connection
//! and the encoding: it hands over what arrived, decodes payloads and
//! snapshots, and encodes what is to be sent; the decisions are made here.

use vstd::prelude::*;
use crate::ident::Uuid;
use crate::domain::participant::{LobbyRole, Participant, ParticipantView};
use crate::domain::lobby::Lobby;
use crate::domain::activity_run::{ActivityRunView, RunStatus};
use crate::application::commands::{DomainCommand, DomainCommandView, command_views};
use crate::application::events::{DomainEvent as CoreDomainEvent, DomainEventView};
use crate::application::domain_loop::{DomainLoop, DomainLoopView};
use crate::p2p::peer::PeerId;
use crate::p2p::transport::{Incoming, Outgoing, P2PTransport, TransportEvent, TransportView, outgoing_views};
use crate::p2p::error::{P2PError, send_failed};
use crate::p2p::event_translator::opt_command_view;
use crate::p2p::session_loop::{accepted, lists_participants, participant_list, room, submitted};

verus! {

/// The state of a lobby sent to a guest of a transport session.
#[derive(Debug)]
pub struct LobbySnapshotV2 {
    pub lobby_id: Uuid,
    pub name: String,
    pub host_id: Uuid,
    pub participants: Vec<Participant>,
}

/// The views of a sequence of participants.
pub open spec fn participant_seq(s: Seq<Participant>) -> Seq<ParticipantView> {
    s.map_values(|p: Participant| p@)
}

/// The command that tells guests about a domain event, as a view, where
/// `runs` are the host's runs: joined guests are added, queued activities
/// queued, a started run is started on guests under the host's run id with
/// the run's required submitters, results are submitted and cancelled runs
/// cancelled; other events are not sent.
pub open spec fn v2_command_for(
    lobby: Uuid,
    runs: Map<Uuid, ActivityRunView>,
    e: DomainEventView,
) -> Option<DomainCommandView> {
    match e {
        DomainEventView::GuestJoined { participant, .. } => Some(
            DomainCommandView::AddParticipant { lobby_id: lobby, participant },
        ),
        DomainEventView::ActivityQueued { config, .. } => Some(
            DomainCommandView::QueueActivity { lobby_id: lobby, config },
        ),
        DomainEventView::RunStarted { run_id, config, .. } => Some(
            DomainCommandView::SyncRunStarted {
                lobby_id: lobby,
                run_id,
                config,
                required_submitters: if runs.contains_key(run_id) {
                    runs[run_id].required
                } else {
                    Set::empty()
                },
            },
        ),
        DomainEventView::ResultSubmitted { run_id, result, .. } => Some(
            DomainCommandView::SubmitResult { lobby_id: lobby, run_id, result },
        ),
        DomainEventView::RunEnded { run_id, status, .. } => if status == RunStatus::Cancelled {
            Some(DomainCommandView::CancelRun { lobby_id: lobby, run_id })
        } else {
            None
        },
        _ => None,
    }
}

/// The commands for the domain events `es`, in order; events without one
/// are skipped.
pub open spec fn v2_commands_for(
    lobby: Uuid,
    runs: Map<Uuid, ActivityRunView>,
    es: Seq<DomainEventView>,
) -> Seq<DomainCommandView>
    decreases es.len(),
{
    if es.len() == 0 {
        Seq::empty()
    } else {
        let rest = v2_commands_for(lobby, runs, es.drop_last());
        match v2_command_for(lobby, runs, es.last()) {
            Some(c) => rest.push(c),
            None => rest,
        }
    }
}

/// Every result submitted on the host reaches the guests: for each
/// `ResultSubmitted` event among the host's events, the commands for the
/// guests include `SubmitResult` for the session's lobby, with the same run
/// and result; and there are never more commands than events.
pub proof fn lemma_results_reach_guests(lobby: Uuid, runs: Map<Uuid, ActivityRunView>, es: Seq<DomainEventView>)
    ensures
        v2_commands_for(lobby, runs, es).len() <= es.len(),
        forall|i: int|
            0 <= i < es.len() && (#[trigger] es[i]) is ResultSubmitted ==> v2_commands_for(lobby, runs, es).contains(
                DomainCommandView::SubmitResult {
                    lobby_id: lobby,
                    run_id: es[i]->ResultSubmitted_run_id,
                    result: es[i]->ResultSubmitted_result,
                },
            ),
    decreases es.len(),
{
    if es.len() > 0 {
        let init = es.drop_last();
        lemma_results_reach_guests(lobby, runs, init);
        let rest = v2_commands_for(lobby, runs, init);
        let all = v2_commands_for(lobby, runs, es);
        assert forall|i: int|
            0 <= i < es.len() && (#[trigger] es[i]) is ResultSubmitted implies all.contains(
                DomainCommandView::SubmitResult {
                    lobby_id: lobby,
                    run_id: es[i]->ResultSubmitted_run_id,
                    result: es[i]->ResultSubmitted_result,
                },
            ) by {
            let c = DomainCommandView::SubmitResult {
                lobby_id: lobby,
                run_id: es[i]->ResultSubmitted_run_id,
                result: es[i]->ResultSubmitted_result,
            };
            if i < es.len() - 1 {
                assert(init[i] == es[i]);
                assert(rest.contains(c));
                let k = choose|k: int| 0 <= k < rest.len() && rest[k] == c;
                match v2_command_for(lobby, runs, es.last()) {
                    Some(x) => {
                        assert(all == rest.push(x));
                        assert(all[k] == c);
                    },
                    None => {},
                }
            } else {
                assert(es.last() == es[i]);
                assert(all == rest.push(c));
                assert(all[rest.len() as int] == c);
            }
        }
    }
}

/// The index of the first host among `ps` (meaningful when there is one).
pub open spec fn first_host(ps: Seq<ParticipantView>) -> int {
    choose|i: int|
        0 <= i < ps.len() && ps[i].role == LobbyRole::Host && forall|j: int|
            0 <= j < i ==> ps[j].role != LobbyRole::Host
}

/// The participants of `ps` that are not hosts, in order.
pub open spec fn guests_of(ps: Seq<ParticipantView>) -> Seq<ParticipantView> {
    ps.filter(|p: ParticipantView| p.role != LobbyRole::Host)
}

/// The commands that add the participants `ps` to `lobby`, in order.
pub open spec fn add_commands(lobby: Uuid, ps: Seq<ParticipantView>) -> Seq<DomainCommandView> {
    ps.map_values(|p: ParticipantView| DomainCommandView::AddParticipant { lobby_id: lobby, participant: p })
}

/// `d2` is `d` after a snapshot is applied: the lobby is created around its
/// first host, the domain polls, the other participants are added, and the
/// domain polls again.
pub open spec fn snapshot_applied(d: DomainLoopView, snap: LobbySnapshotV2, d2: DomainLoopView) -> bool {
    let ps = participant_seq(snap.participants@);
    let create = DomainCommandView::CreateLobbyWithHost {
        lobby_id: snap.lobby_id,
        lobby_name: snap.name@,
        host: ps[first_host(ps)],
    };
    exists|a: DomainLoopView, b: DomainLoopView, c: DomainLoopView, n1: usize, n2: usize|
        #![trigger accepted(d, seq![create], a), a.polled(b, n1), accepted(b, add_commands(snap.lobby_id, guests_of(ps)), c), c.polled(d2, n2)]
        {
            &&& accepted(d, seq![create], a)
            &&& a.polled(b, n1)
            &&& accepted(b, add_commands(snap.lobby_id, guests_of(ps)), c)
            &&& c.polled(d2, n2)
        }
}

/// What a transport event asks of the caller.
#[derive(Debug)]
pub enum V2Step {
    /// Nothing more.
    Done,
    /// Send this peer a snapshot (host).
    SendSnapshot(PeerId),
    /// Decode this snapshot and apply it (guest).
    ApplySnapshot(serde_json::Value),
}

/// What a transport session is: its domain side, its transport, whether it
/// is the host, and its lobby.
pub struct SessionLoopV2View {
    pub domain: DomainLoopView,
    pub transport: TransportView,
    pub is_host: bool,
    pub lobby_id: Uuid,
}

/// A session over the reliable transport.
pub struct SessionLoopV2 {
    domain: DomainLoop,
    transport: P2PTransport,
    is_host: bool,
    lobby_id: Uuid,
    to_host: Vec<DomainCommand>,
}

impl View for SessionLoopV2 {
    type V = (SessionLoopV2View, Seq<DomainCommandView>);

    /// The session, and the commands waiting to be sent to the host.
    closed spec fn view(&self) -> (SessionLoopV2View, Seq<DomainCommandView>) {
        (
            SessionLoopV2View {
                domain: self.domain@,
                transport: self.transport@,
                is_host: self.is_host,
                lobby_id: self.lobby_id,
            },
            command_views(self.to_host@),
        )
    }
}

impl SessionLoopV2 {
    pub open spec fn wf(&self) -> bool {
        self@.0.transport.wf()
    }

    pub fn new(domain: DomainLoop, transport: P2PTransport, is_host: bool, lobby_id: Uuid) -> (l: Self)
        requires
            transport@.wf(),
        ensures
            l.wf(),
            l@.0 == (SessionLoopV2View { domain: domain@, transport: transport@, is_host, lobby_id }),
            l@.1 == Seq::<DomainCommandView>::empty(),
    {
        let l = SessionLoopV2 { domain, transport, is_host, lobby_id, to_host: Vec::new() };
        proof {
            assert(command_views(l.to_host@) =~= Seq::<DomainCommandView>::empty());
        }
        l
    }

    /// Submits a domain command: the host queues it for its domain (a full
    /// queue refuses it), a guest keeps it for sending to the host.
    pub fn submit_command(&mut self, cmd: DomainCommand) -> (r: Result<(), P2PError>)
        requires
            old(self).wf(),
        ensures
            final(self).wf(),
            old(self)@.0.is_host && old(self)@.0.domain.inbound.items.len() >= old(self)@.0.domain.inbound.max_size
                ==> final(self)@ == old(self)@ && send_failed(
                r,
                crate::application::command_queue::QueueError::Full {
                    max: old(self)@.0.domain.inbound.max_size,
                }.message_spec(),
            ),
            old(self)@.0.is_host && old(self)@.0.domain.inbound.items.len() < old(self)@.0.domain.inbound.max_size
                ==> r is Ok && final(self)@ == (
                SessionLoopV2View { domain: submitted(old(self)@.0.domain, cmd), ..old(self)@.0 },
                old(self)@.1,
            ),
            !old(self)@.0.is_host ==> r is Ok && final(self)@ == (old(self)@.0, old(self)@.1.push(cmd@)),
    {
        if self.is_host {
            match self.domain.submit(cmd) {
                Ok(()) => Ok(()),
                Err(e) => Err(P2PError::SendFailed(e.message())),
            }
        } else {
            let ghost before = self.to_host@;
            let ghost cv = cmd@;
            self.to_host.push(cmd);
            proof {
                assert(command_views(self.to_host@) =~= command_views(before).push(cv));
            }
            Ok(())
        }
    }

    /// Takes the commands waiting to be sent to the host, oldest first.
    pub fn drain_to_host(&mut self) -> (v: Vec<DomainCommand>)
        ensures
            final(self).wf() == old(self).wf(),
            command_views(v@) == old(self)@.1,
            final(self)@ == (old(self)@.0, Seq::<DomainCommandView>::empty()),
    {
        let mut taken: Vec<DomainCommand> = Vec::new();
        std::mem::swap(&mut taken, &mut self.to_host);
        proof {
            assert(command_views(self.to_host@) =~= Seq::<DomainCommandView>::empty());
        }
        taken
    }

    /// Sends an encoded command to the host (the first connected peer).
    pub fn send_to_host(&mut self, payload: serde_json::Value, connected_peers: &Vec<PeerId>) -> (r: Result<
        (),
        P2PError,
    >)
        requires
            old(self).wf(),
        ensures
            final(self).wf(),
            connected_peers@.len() == 0 ==> final(self)@ == old(self)@ && send_failed(r, "No host connected"@),
            connected_peers@.len() > 0 ==> r is Ok && final(self)@ == (
                SessionLoopV2View {
                    transport: TransportView {
                        outbox: old(self)@.0.transport.outbox.push(
                            crate::p2p::transport::OutgoingView::SendTo(
                                connected_peers@[0],
                                crate::p2p::transport::app_view(0, payload),
                            ),
                        ),
                        ..old(self)@.0.transport
                    },
                    ..old(self)@.0
                },
                old(self)@.1,
            ),
    {
        self.transport.send_to_host(payload, connected_peers)
    }

    /// The command that tells guests about a domain event, if any.
    pub fn event_to_command(&self, event: CoreDomainEvent) -> (r: Option<DomainCommand>)
        ensures
            opt_command_view(r) == v2_command_for(self@.0.lobby_id, self@.0.domain.state.runs, event@),
    {
        match event {
            CoreDomainEvent::GuestJoined { participant, .. } => Some(
                DomainCommand::AddParticipant { lobby_id: self.lobby_id, participant },
            ),
            CoreDomainEvent::ActivityQueued { config, .. } => Some(
                DomainCommand::QueueActivity { lobby_id: self.lobby_id, config },
            ),
            CoreDomainEvent::RunStarted { run_id, config, .. } => {
                let required_submitters = match self.domain.event_loop().get_run(&run_id) {
                    Some(run) => crate::keys::set_items(run.required_submitters()),
                    None => Vec::new(),
                };
                proof {
                    if !self@.0.domain.state.runs.contains_key(run_id) {
                        assert(required_submitters@.to_set() =~= Set::<Uuid>::empty());
                    }
                }
                Some(DomainCommand::SyncRunStarted { lobby_id: self.lobby_id, run_id, config, required_submitters })
            },
            CoreDomainEvent::ResultSubmitted { run_id, result, .. } => Some(
                DomainCommand::SubmitResult { lobby_id: self.lobby_id, run_id, result },
            ),
            CoreDomainEvent::RunEnded { run_id, status, .. } => match status {
                RunStatus::Cancelled => Some(DomainCommand::CancelRun { lobby_id: self.lobby_id, run_id }),
                _ => None,
            },
            _ => None,
        }
    }

    /// Takes the transport's events for the session, oldest first.
    pub fn drain_transport_events(&mut self) -> (v: Vec<TransportEvent>)
        requires
            old(self).wf(),
        ensures
            final(self).wf(),
            v@ == old(self)@.0.transport.events,
            final(self)@ == (
                SessionLoopV2View {
                    transport: TransportView { events: Seq::empty(), ..old(self)@.0.transport },
                    ..old(self)@.0
                },
                old(self)@.1,
            ),
    {
        self.transport.drain_events()
    }

    /// What a transport event asks: the host sends a snapshot to a new peer
    /// or to one that asks; a guest asks for a snapshot when a peer
    /// connects, and applies a snapshot that arrives.
    pub fn on_transport_event(&mut self, event: TransportEvent) -> (step: V2Step)
        requires
            old(self).wf(),
        ensures
            final(self).wf(),
            match event {
                TransportEvent::PeerConnected(p) => if old(self)@.0.is_host {
                    step == V2Step::SendSnapshot(p) && final(self)@ == old(self)@
                } else {
                    step == V2Step::Done && final(self)@ == (
                        SessionLoopV2View {
                            transport: if old(self)@.0.transport.is_host {
                                old(self)@.0.transport
                            } else {
                                TransportView {
                                    outbox: old(self)@.0.transport.outbox.push(
                                        crate::p2p::transport::OutgoingView::Broadcast(
                                            crate::p2p::transport::control_view(
                                                crate::p2p::transport::MessageKindView::SnapshotRequest,
                                            ),
                                        ),
                                    ),
                                    ..old(self)@.0.transport
                                }
                            },
                            ..old(self)@.0
                        },
                        old(self)@.1,
                    )
                },
                TransportEvent::SnapshotRequested { from } => final(self)@ == old(self)@ && if old(
                    self,
                )@.0.is_host {
                    step == V2Step::SendSnapshot(from)
                } else {
                    step == V2Step::Done
                },
                TransportEvent::SnapshotReceived { snapshot, .. } => final(self)@ == old(self)@ && step
                    == V2Step::ApplySnapshot(snapshot),
            },
    {
        match event {
            TransportEvent::PeerConnected(p) => {
                if self.is_host {
                    V2Step::SendSnapshot(p)
                } else {
                    let _ = self.transport.request_snapshot();
                    V2Step::Done
                }
            },
            TransportEvent::SnapshotRequested { from } => {
                if self.is_host {
                    V2Step::SendSnapshot(from)
                } else {
                    V2Step::Done
                }
            },
            TransportEvent::SnapshotReceived { snapshot, .. } => V2Step::ApplySnapshot(snapshot),
        }
    }

    /// Hands what arrived to the transport; answers the application
    /// payloads it delivered, in order.
    pub fn receive(&mut self, incoming: Vec<Incoming>) -> (delivered: Vec<serde_json::Value>)
        requires
            old(self).wf(),
        ensures
            final(self).wf(),
            delivered@ == old(self)@.0.transport.on_all(incoming@).1,
            final(self)@ == (
                SessionLoopV2View { transport: old(self)@.0.transport.on_all(incoming@).0, ..old(self)@.0 },
                old(self)@.1,
            ),
    {
        self.transport.poll(incoming)
    }

    /// Queues a decoded command for the domain (a full queue refuses it).
    pub fn execute(&mut self, cmd: DomainCommand)
        ensures
            final(self).wf() == old(self).wf(),
            final(self)@ == (
                SessionLoopV2View { domain: submitted(old(self)@.0.domain, cmd), ..old(self)@.0 },
                old(self)@.1,
            ),
    {
        let _ = self.domain.submit(cmd);
    }

    /// Runs a batch of the domain's commands; answers how many.
    pub fn run_domain(&mut self) -> (n: usize)
        ensures
            final(self).wf() == old(self).wf(),
            old(self)@.0.domain.polled(final(self)@.0.domain, n),
            final(self)@.0 == (SessionLoopV2View { domain: final(self)@.0.domain, ..old(self)@.0 }),
            final(self)@.1 == old(self)@.1,
    {
        self.domain.poll()
    }

    /// Takes the domain's events: on the host, the commands that tell the
    /// guests about them, in order; a guest just drops them.
    pub fn take_broadcasts(&mut self) -> (v: Vec<DomainCommand>)
        ensures
            final(self).wf() == old(self).wf(),
            final(self)@ == (
                SessionLoopV2View {
                    domain: DomainLoopView { outbound: Seq::empty(), ..old(self)@.0.domain },
                    ..old(self)@.0
                },
                old(self)@.1,
            ),
            command_views(v@) == (if old(self)@.0.is_host {
                v2_commands_for(old(self)@.0.lobby_id, old(self)@.0.domain.state.runs, old(self)@.0.domain.outbound)
            } else {
                Seq::empty()
            }),
    {
        let events = self.domain.drain_events();
        let ghost evs = events@.map_values(|e: CoreDomainEvent| e@);
        let mut out: Vec<DomainCommand> = Vec::new();
        if !self.is_host {
            proof {
                assert(command_views(out@) =~= Seq::<DomainCommandView>::empty());
            }
            return out;
        }
        let total = events.len();
        let mut rest = events;
        let mut i: usize = 0;
        proof {
            assert(events@.skip(0) =~= events@);
            assert(command_views(out@) =~= v2_commands_for(self.lobby_id, self@.0.domain.state.runs, evs.take(0)));
        }
        while rest.len() > 0
            invariant
                i <= total,
                total == events@.len(),
                evs == events@.map_values(|e: CoreDomainEvent| e@),
                rest@ == events@.skip(i as int),
                command_views(out@) == v2_commands_for(self.lobby_id, self@.0.domain.state.runs, evs.take(i as int)),
            decreases rest@.len(),
        {
            let e = rest.remove(0);
            proof {
                assert(e == events@[i as int]);
                assert(rest@ =~= events@.skip(i + 1));
                assert(evs.take(i + 1).drop_last() =~= evs.take(i as int));
                assert(evs.take(i + 1).last() == e@);
            }
            let ghost before = command_views(out@);
            match self.event_to_command(e) {
                Some(c) => {
                    let ghost cv = c@;
                    out.push(c);
                    proof {
                        assert(command_views(out@) =~= before.push(cv));
                    }
                },
                None => {},
            }
            i += 1;
        }
        proof {
            assert(evs.take(i as int) =~= evs);
        }
        out
    }

    /// Broadcasts an encoded command to the guests (host only); answers
    /// the number it was given.
    pub fn broadcast(&mut self, payload: serde_json::Value) -> (r: Result<u64, P2PError>)
        requires
            old(self).wf(),
            old(self)@.0.transport.is_host ==> old(self)@.0.transport.next_sequence < u64::MAX,
        ensures
            final(self).wf(),
            final(self)@.1 == old(self)@.1,
            !old(self)@.0.transport.is_host ==> final(self)@ == old(self)@ && send_failed(
                r,
                "Only host can broadcast messages"@,
            ),
            old(self)@.0.transport.is_host ==> {
                let t = old(self)@.0.transport;
                let s = t.next_sequence;
                &&& r == Ok::<u64, P2PError>(s)
                &&& final(self)@.0 == (SessionLoopV2View {
                    transport: TransportView {
                        next_sequence: (s + 1) as u64,
                        cache: crate::p2p::transport::keep_last(
                            t.cache,
                            crate::p2p::transport::P2PMessage {
                                sequence: s,
                                kind: crate::p2p::transport::MessageKind::Application { payload },
                            },
                            t.cache_size,
                        ),
                        outbox: t.outbox.push(
                            crate::p2p::transport::OutgoingView::Broadcast(
                                crate::p2p::transport::app_view(s, payload),
                            ),
                        ),
                        ..t
                    },
                    ..old(self)@.0
                })
            },
    {
        self.transport.send(payload)
    }

    /// The number the next broadcast gets.
    pub fn next_sequence(&self) -> (n: u64)
        ensures
            n == self@.0.transport.next_sequence,
    {
        self.transport.next_sequence()
    }

    /// The state of a lobby, for a guest.
    pub fn create_snapshot(&self, lobby: &Lobby) -> (s: LobbySnapshotV2)
        ensures
            s.lobby_id == lobby@.id,
            s.name@ == lobby@.name,
            s.host_id == lobby@.host_id,
            lists_participants(participant_seq(s.participants@), lobby@.participants),
    {
        proof {
            lobby.lemma_participant_map();
        }
        let participants = participant_list(lobby.participants());
        LobbySnapshotV2 {
            lobby_id: lobby.id(),
            name: String::from_str(lobby.name()),
            host_id: lobby.host_id(),
            participants,
        }
    }

    /// The state of the session's lobby, for a guest, when there is one.
    pub fn snapshot(&self) -> (s: Option<LobbySnapshotV2>)
        ensures
            match s {
                Some(s) => {
                    let l = self@.0.domain.state.lobbies[self@.0.lobby_id];
                    &&& self@.0.domain.state.lobbies.contains_key(self@.0.lobby_id)
                    &&& s.lobby_id == l.id
                    &&& s.name@ == l.name
                    &&& s.host_id == l.host_id
                    &&& lists_participants(participant_seq(s.participants@), l.participants)
                },
                None => !self@.0.domain.state.lobbies.contains_key(self@.0.lobby_id),
            },
    {
        match self.get_lobby() {
            Some(lobby) => Some(self.create_snapshot(lobby)),
            None => None,
        }
    }

    /// Queues an encoded snapshot for one peer (host only).
    pub fn send_snapshot(&mut self, peer: PeerId, snapshot: serde_json::Value) -> (r: Result<(), P2PError>)
        requires
            old(self).wf(),
        ensures
            final(self).wf(),
            final(self)@.1 == old(self)@.1,
            !old(self)@.0.transport.is_host ==> final(self)@ == old(self)@ && send_failed(
                r,
                "Only host can send snapshots"@,
            ),
            old(self)@.0.transport.is_host ==> r is Ok && final(self)@.0 == (SessionLoopV2View {
                transport: TransportView {
                    outbox: old(self)@.0.transport.outbox.push(
                        crate::p2p::transport::OutgoingView::SendTo(
                            peer,
                            crate::p2p::transport::control_view(
                                crate::p2p::transport::MessageKindView::SnapshotResponse {
                                    snapshot,
                                    as_of_sequence: (old(self)@.0.transport.next_sequence - 1) as u64,
                                },
                            ),
                        ),
                    ),
                    ..old(self)@.0.transport
                },
                ..old(self)@.0
            }),
    {
        self.transport.send_snapshot(peer, snapshot)
    }

    /// Applies a snapshot from the host: the lobby is created around the
    /// first host listed, the domain runs, the other participants are
    /// added, and the domain runs again.
    pub fn apply_snapshot(&mut self, snapshot: LobbySnapshotV2)
        requires
            exists|i: int|
                0 <= i < snapshot.participants@.len() && (#[trigger] snapshot.participants@[i])@.role
                    == LobbyRole::Host,
        ensures
            final(self).wf() == old(self).wf(),
            snapshot_applied(old(self)@.0.domain, snapshot, final(self)@.0.domain),
            final(self)@.0 == (SessionLoopV2View { domain: final(self)@.0.domain, ..old(self)@.0 }),
            final(self)@.1 == old(self)@.1,
    {
        let ghost ps = participant_seq(snapshot.participants@);
        let mut h: usize = 0;
        while !snapshot.participants[h].is_host()
            invariant
                0 <= h < snapshot.participants@.len(),
                exists|i: int| h <= i < snapshot.participants@.len() && (#[trigger] snapshot.participants@[i])@.role == LobbyRole::Host,
                forall|j: int| 0 <= j < h ==> (#[trigger] snapshot.participants@[j])@.role != LobbyRole::Host,
            decreases snapshot.participants@.len() - h,
        {
            proof {
                let w = choose|i: int|
                    h <= i < snapshot.participants@.len() && (#[trigger] snapshot.participants@[i])@.role
                        == LobbyRole::Host;
                assert(snapshot.participants@[h as int]@.role != LobbyRole::Host);
                assert(w > h);
                assert(snapshot.participants@.len() == snapshot.participants.len());
            }
            h += 1;
        }
        proof {
            assert(ps[h as int] == snapshot.participants@[h as int]@);
            assert(forall|j: int| 0 <= j < h ==> ps[j] == #[trigger] snapshot.participants@[j]@);
            assert(first_host(ps) == h as int);
        }
        let host = snapshot.participants[h].clone();
        let ghost snap = snapshot;
        let LobbySnapshotV2 { lobby_id, name, host_id: _, participants } = snapshot;
        let create = DomainCommand::CreateLobbyWithHost { lobby_id, lobby_name: name, host };
        let ghost d0 = self.domain@;
        let ghost create_v = create@;
        let r = self.domain.submit(create);
        let ghost a = self.domain@;
        proof {
            let create_seq = seq![create_v];
            if r is Ok {
                let acc = seq![create];
                assert(command_views(acc) =~= create_seq.take(vstd::math::min(room(d0), 1)));
                assert(d0.inbound.items.push(create) =~= d0.inbound.items + acc);
            } else {
                let acc = Seq::<DomainCommand>::empty();
                assert(command_views(acc) =~= create_seq.take(vstd::math::min(room(d0), 1)));
                assert(d0.inbound.items + acc =~= d0.inbound.items);
            }
            assert(accepted(d0, create_seq, a));
        }
        let n1 = self.domain.poll();
        let ghost b = self.domain@;
        let ghost mut acc: Seq<DomainCommand> = Seq::empty();
        let mut i: usize = 0;
        proof {
            assert(ps.take(0) =~= Seq::<ParticipantView>::empty());
            assert(guests_of(ps.take(0)) =~= Seq::<ParticipantView>::empty());
            assert(command_views(acc) =~= add_commands(lobby_id, guests_of(ps.take(0))).take(0));
            assert(b.inbound.items + acc =~= b.inbound.items);
        }
        while i < participants.len()
            invariant
                i <= participants@.len(),
                participants@ == snap.participants@,
                ps == participant_seq(snap.participants@),
                lobby_id == snap.lobby_id,
                command_views(acc) == add_commands(lobby_id, guests_of(ps.take(i as int))).take(
                    vstd::math::min(room(b), guests_of(ps.take(i as int)).len() as int),
                ),
                self.domain@ == (DomainLoopView {
                    inbound: crate::application::command_queue::CommandQueueView {
                        items: b.inbound.items + acc,
                        ..b.inbound
                    },
                    ..b
                }),
                self.transport == old(self).transport,
                self.is_host == old(self).is_host,
                self.lobby_id == old(self).lobby_id,
                self.to_host == old(self).to_host,
            decreases participants@.len() - i,
        {
            let ghost gs = guests_of(ps.take(i as int));
            proof {
                assert(ps.take(i + 1).drop_last() =~= ps.take(i as int));
                assert(ps.take(i + 1).last() == ps[i as int]);
                reveal(Seq::filter);
                assert(ps[i as int] == participants@[i as int]@);
            }
            if !participants[i].is_host() {
                let add = DomainCommand::AddParticipant { lobby_id, participant: participants[i].clone() };
                let ghost add_v = add@;
                let r2 = self.domain.submit(add);
                proof {
                    let gs2 = guests_of(ps.take(i + 1));
                    assert(gs2 =~= gs.push(ps[i as int]));
                    let cs = add_commands(lobby_id, gs);
                    let cs2 = add_commands(lobby_id, gs2);
                    assert(cs2 =~= cs.push(add_v));
                    if r2 is Ok {
                        let acc2 = acc.push(add);
                        assert(command_views(acc2) =~= command_views(acc).push(add_v));
                        assert(cs2.take(vstd::math::min(room(b), gs2.len() as int)) =~= cs.take(
                            vstd::math::min(room(b), gs.len() as int),
                        ).push(add_v));
                        assert(b.inbound.items + acc2 =~= (b.inbound.items + acc).push(add));
                        acc = acc2;
                    } else {
                        assert(cs2.take(vstd::math::min(room(b), gs2.len() as int)) =~= cs.take(
                            vstd::math::min(room(b), gs.len() as int),
                        ));
                    }
                }
            } else {
                proof {
                    assert(guests_of(ps.take(i + 1)) =~= gs);
                }
            }
            i += 1;
        }
        let ghost c = self.domain@;
        proof {
            assert(ps.take(participants@.len() as int) =~= ps);
            let gs = guests_of(ps);
            assert(accepted(b, add_commands(lobby_id, gs), c));
        }
        let n2 = self.domain.poll();
        proof {
            let create_seq = seq![create_v];
            assert(create_v == (DomainCommandView::CreateLobbyWithHost {
                lobby_id: snap.lobby_id,
                lobby_name: snap.name@,
                host: ps[first_host(ps)],
            }));
            assert(accepted(d0, create_seq, a));
            assert(a.polled(b, n1));
            assert(c.polled(self.domain@, n2));
        }
    }

    /// Takes the messages queued for sending, oldest first.
    pub fn drain_outgoing(&mut self) -> (v: Vec<Outgoing>)
        requires
            old(self).wf(),
        ensures
            final(self).wf(),
            outgoing_views(v@) == old(self)@.0.transport.outbox,
            final(self)@ == (
                SessionLoopV2View {
                    transport: TransportView { outbox: Seq::empty(), ..old(self)@.0.transport },
                    ..old(self)@.0
                },
                old(self)@.1,
            ),
    {
        self.transport.drain_outgoing()
    }

    /// The session's lobby, if it exists.
    pub fn get_lobby(&self) -> (l: Option<&Lobby>)
        ensures
            match l {
                Some(l) => self@.0.domain.state.lobbies.contains_key(self@.0.lobby_id)
                    && l@ == self@.0.domain.state.lobbies[self@.0.lobby_id],
                None => !self@.0.domain.state.lobbies.contains_key(self@.0.lobby_id),
            },
    {
        self.domain.event_loop().get_lobby(&self.lobby_id)
    }

    pub fn lobby_id(&self) -> (id: Uuid)
        ensures
            id == self@.0.lobby_id,
    {
        self.lobby_id
    }

    pub fn is_host(&self) -> (b: bool)
        ensures
            b == self@.0.is_host,
    {
        self.is_host
    }
}

} // verus!
