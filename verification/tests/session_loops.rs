//! The event-sourced session loop and the P2P session, on an in-memory
//! network that hands sync messages over as they are.

use konnekt_session::application::commands::DomainCommand;
use konnekt_session::application::domain_loop::DomainLoop;
use konnekt_session::application::events::DomainEvent as CoreDomainEvent;
use konnekt_session::ident::Uuid;
use konnekt_session::p2p::connection_event::ConnectionEvent;
use konnekt_session::p2p::event::DomainEvent;
use konnekt_session::p2p::p2p_loop::{Arrival, Dispatch, P2PLoop};
use konnekt_session::p2p::peer::PeerId;
use konnekt_session::p2p::session::{P2PSession, SessionOutput};
use konnekt_session::p2p::session_id::SessionId;
use konnekt_session::p2p::session_loop::SessionLoop;
use konnekt_session::p2p::sync_manager::{LobbySnapshot, SyncMessage};

fn random_uuid() -> u128 {
    uuid::Uuid::new_v4().as_u128()
}

fn copy_sync(m: &SyncMessage) -> SyncMessage {
    match m {
        SyncMessage::CommandRequest { command } => SyncMessage::CommandRequest { command: command.clone() },
        SyncMessage::EventBroadcast { event } => SyncMessage::EventBroadcast { event: event.clone() },
        SyncMessage::RequestFullSync { lobby_id } => SyncMessage::RequestFullSync { lobby_id: *lobby_id },
        SyncMessage::FullSyncResponse { snapshot, events } => SyncMessage::FullSyncResponse {
            snapshot: LobbySnapshot {
                lobby_id: snapshot.lobby_id,
                name: snapshot.name.clone(),
                host_id: snapshot.host_id,
                participants: snapshot.participants.clone(),
                as_of_sequence: snapshot.as_of_sequence,
            },
            events: events.clone(),
        },
    }
}

struct Node {
    id: PeerId,
    session: SessionLoop,
    inbox: Vec<Arrival>,
}

struct Net {
    nodes: Vec<Node>,
    lobby_id: Uuid,
}

impl Net {
    fn new(guests: usize) -> Net {
        let lobby_id = random_uuid();
        let mut net = Net { nodes: Vec::new(), lobby_id };
        let mut domain = DomainLoop::new(10, 100);
        domain
            .submit(DomainCommand::CreateLobby {
                lobby_id: Some(lobby_id),
                lobby_name: "Test Lobby".to_string(),
                host_name: "Host".to_string(),
            })
            .unwrap();
        domain.poll();
        domain.drain_events();
        net.add(SessionLoop::new_host(P2PLoop::new_host(lobby_id, 10, 100), domain, lobby_id));
        for _ in 0..guests {
            let g = SessionLoop::new_guest(P2PLoop::new_guest(lobby_id, 10, 100), DomainLoop::new(10, 100), lobby_id);
            net.add(g);
        }
        net
    }

    fn add(&mut self, session: SessionLoop) {
        let id = PeerId::new(random_uuid());
        let mut inbox = Vec::new();
        for other in self.nodes.iter_mut() {
            inbox.push(Arrival { event: ConnectionEvent::PeerConnected(other.id), message: None });
            other.inbox.push(Arrival { event: ConnectionEvent::PeerConnected(id), message: None });
        }
        self.nodes.push(Node { id, session, inbox });
    }

    fn route(&mut self, i: usize, ds: Vec<Dispatch>) {
        let from = self.nodes[i].id;
        for d in ds {
            for (j, n) in self.nodes.iter_mut().enumerate() {
                let target = match d.to {
                    Some(p) => p == n.id,
                    None => j != i,
                };
                if target {
                    n.inbox.push(Arrival {
                        event: ConnectionEvent::MessageReceived { from, data: Vec::new() },
                        message: Some(copy_sync(&d.message)),
                    });
                }
            }
        }
    }

    fn flush(&mut self, i: usize) {
        let ds = self.nodes[i].session.p2p_mut().drain_dispatches();
        self.route(i, ds);
    }

    fn tick(&mut self, n: usize) {
        for _ in 0..n {
            for i in 0..self.nodes.len() {
                let arrivals = std::mem::take(&mut self.nodes[i].inbox);
                let connected: Vec<PeerId> =
                    self.nodes.iter().enumerate().filter(|(j, _)| *j != i).map(|(_, x)| x.id).collect();
                let local = Some(self.nodes[i].id);
                self.nodes[i].session.poll(arrivals, connected, local);
                self.flush(i);
            }
        }
    }
}

#[test]
fn session_loop_host_has_lobby() {
    let mut net = Net::new(0);
    net.tick(1);
    let lobby = net.nodes[0].session.get_lobby().unwrap();
    assert_eq!(lobby.name(), "Test Lobby");
    assert_eq!(lobby.participants().len(), 1);
    assert!(net.nodes[0].session.is_host());
    assert_eq!(net.nodes[0].session.lobby_id(), net.lobby_id);
}

#[test]
fn session_loop_guest_syncs_and_joins() {
    let mut net = Net::new(1);
    net.tick(5);
    let guest_lobby = net.nodes[1].session.get_lobby().expect("Guest should have synced lobby");
    assert_eq!(guest_lobby.name(), "Test Lobby");
    assert_eq!(guest_lobby.participants().len(), 1);

    let lobby_id = net.lobby_id;
    net.nodes[1]
        .session
        .submit_command(DomainCommand::JoinLobby { lobby_id, guest_name: "Alice".to_string() })
        .unwrap();
    net.flush(1);
    net.tick(5);

    assert_eq!(net.nodes[0].session.get_lobby().unwrap().participants().len(), 2);
    assert_eq!(net.nodes[1].session.get_lobby().unwrap().participants().len(), 2);
    assert!(net.nodes[0].session.current_sequence() >= 1);
    assert_eq!(net.nodes[1].session.current_sequence(), net.nodes[0].session.current_sequence());
}

#[test]
fn session_loop_guest_cannot_send_full_sync() {
    let lobby_id = random_uuid();
    let mut g = SessionLoop::new_guest(P2PLoop::new_guest(lobby_id, 10, 10), DomainLoop::new(10, 10), lobby_id);
    assert!(g.send_full_sync_to_peer(PeerId::new(1)).is_err());
    let mut h = SessionLoop::new_host(P2PLoop::new_host(lobby_id, 10, 10), DomainLoop::new(10, 10), lobby_id);
    assert!(h.send_full_sync_to_peer(PeerId::new(1)).is_err());
}

#[test]
fn p2p_loop_host_numbers_broadcast_events() {
    let lobby_id = random_uuid();
    let mut l = P2PLoop::new_host(lobby_id, 10, 10);
    let ev = CoreDomainEvent::GuestLeft { lobby_id, participant_id: 4 };
    assert!(l.broadcast_domain_event(ev).is_ok());
    assert_eq!(l.current_sequence(), 1);
    let ds = l.drain_dispatches();
    assert_eq!(ds.len(), 1);
    match &ds[0].message {
        SyncMessage::EventBroadcast { event } => {
            assert_eq!(event.sequence, 1);
            assert_eq!(event.event, DomainEvent::GuestLeft { participant_id: 4 });
        }
        _ => panic!("Expected EventBroadcast"),
    }
    let failed = CoreDomainEvent::CommandFailed { command: "X".to_string(), reason: "Y".to_string() };
    assert!(l.broadcast_domain_event(failed).is_err());
}

#[test]
fn p2p_loop_guest_turns_host_events_into_commands() {
    let lobby_id = random_uuid();
    let mut host = P2PLoop::new_host(lobby_id, 10, 10);
    host.broadcast_domain_event(CoreDomainEvent::GuestLeft { lobby_id, participant_id: 4 }).unwrap();
    let msg = host.drain_dispatches().remove(0).message;

    let mut guest = P2PLoop::new_guest(lobby_id, 10, 10);
    let host_peer = PeerId::new(1);
    guest.poll_at(
        vec![
            Arrival { event: ConnectionEvent::PeerConnected(host_peer), message: None },
            Arrival { event: ConnectionEvent::MessageReceived { from: host_peer, data: Vec::new() }, message: Some(msg) },
        ],
        0,
    );
    assert_eq!(guest.current_sequence(), 1);
    assert_eq!(guest.drain_domain_commands(), vec![DomainCommand::LeaveLobby { lobby_id, participant_id: 4 }]);
    assert_eq!(guest.peer_registry().peer_count(), 1);
    assert!(guest.request_full_sync().is_ok());
    assert!(host.request_full_sync().is_err());
}

#[test]
fn p2p_loop_reports_timed_out_peers() {
    let lobby_id = random_uuid();
    let mut l = P2PLoop::new_host(lobby_id, 10, 10);
    let p = PeerId::new(3);
    l.poll_at(vec![Arrival { event: ConnectionEvent::PeerConnected(p), message: None }], 0);
    l.poll_at(vec![Arrival { event: ConnectionEvent::PeerDisconnected(p), message: None }], 10);
    l.drain_events();
    l.poll_at(Vec::new(), 10 + 30_000);
    let events = l.drain_events();
    assert!(events
        .iter()
        .any(|e| matches!(e, ConnectionEvent::PeerTimedOut { peer_id, .. } if *peer_id == p)));
    assert!(l.peer_registry().get_peer(&p).is_none());
}

#[test]
fn p2p_session_host_creates_numbered_events() {
    let mut s = P2PSession::new(SessionId::new());
    assert!(s.create_event(DomainEvent::GuestLeft { participant_id: 1 }).is_err());
    let lobby_id = random_uuid();
    s.init_sync_as_host(lobby_id);
    s.create_event(DomainEvent::GuestLeft { participant_id: 1 }).unwrap();
    let ds = s.drain_dispatches();
    assert_eq!(ds.len(), 1);
    assert!(ds[0].to.is_none());
    match &ds[0].message {
        SyncMessage::EventBroadcast { event } => assert_eq!(event.sequence, 1),
        _ => panic!("Expected EventBroadcast"),
    }
}

#[test]
fn p2p_session_guest_applies_events_from_host() {
    let lobby_id = random_uuid();
    let mut host = P2PSession::new(SessionId::new());
    host.init_sync_as_host(lobby_id);
    host.create_event(DomainEvent::GuestLeft { participant_id: 1 }).unwrap();
    let msg = host.drain_dispatches().remove(0).message;

    let mut guest = P2PSession::new(SessionId::new());
    guest.init_sync_as_guest(lobby_id);
    let host_peer = PeerId::new(10);
    let me = PeerId::new(11);
    let out = guest.poll_events_at(
        vec![
            Arrival { event: ConnectionEvent::PeerConnected(host_peer), message: None },
            Arrival { event: ConnectionEvent::MessageReceived { from: host_peer, data: Vec::new() }, message: Some(msg) },
        ],
        Some(me),
        0,
    );
    assert_eq!(out.len(), 3);
    match &out[2] {
        SessionOutput::SyncEvent { from, event } => {
            assert_eq!(*from, me);
            assert_eq!(event.sequence, 1);
        }
        o => panic!("Expected SyncEvent, got {:?}", o),
    }
    assert!(guest.drain_dispatches().is_empty());
}

#[test]
fn p2p_session_tracks_peer_participants() {
    let mut s = P2PSession::new(SessionId::new());
    let p = PeerId::new(1);
    s.poll_events_at(vec![Arrival { event: ConnectionEvent::PeerConnected(p), message: None }], None, 0);
    s.register_peer_participant(p, 42, "Host".to_string(), true);
    assert_eq!(s.find_participant_by_peer(&p), Some(42));
    assert_eq!(s.find_peer_by_participant(42), Some(p));
    assert!(s.is_peer_host(&p));
    assert_eq!(s.find_host_peer(), Some(p));
}
