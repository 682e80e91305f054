//! Sessions over the reliable transport, on an in-memory network. Commands
//! and snapshots travel as JSON numbers that index a shared table.

use konnekt_session::application::commands::DomainCommand;
use konnekt_session::application::domain_loop::DomainLoop;
use konnekt_session::domain::activity::{ActivityConfig, ActivityResult};
use konnekt_session::ident::Uuid;
use konnekt_session::p2p::peer::PeerId;
use konnekt_session::p2p::session_loop_v2::{LobbySnapshotV2, SessionLoopV2, V2Step};
use konnekt_session::p2p::transport::{Incoming, MessageKind, Outgoing, P2PMessage, P2PTransport};

fn random_uuid() -> u128 {
    uuid::Uuid::new_v4().as_u128()
}

fn copy_message(m: &P2PMessage) -> P2PMessage {
    let kind = match &m.kind {
        MessageKind::Application { payload } => MessageKind::Application { payload: payload.clone() },
        MessageKind::SnapshotRequest => MessageKind::SnapshotRequest,
        MessageKind::SnapshotResponse { snapshot, as_of_sequence } => {
            MessageKind::SnapshotResponse { snapshot: snapshot.clone(), as_of_sequence: *as_of_sequence }
        }
        MessageKind::ResendRequest { from, to } => MessageKind::ResendRequest { from: *from, to: *to },
        MessageKind::ResendResponse { messages } => {
            MessageKind::ResendResponse { messages: messages.iter().map(copy_message).collect() }
        }
    };
    P2PMessage { sequence: m.sequence, kind }
}

fn copy_snapshot(s: &LobbySnapshotV2) -> LobbySnapshotV2 {
    LobbySnapshotV2 {
        lobby_id: s.lobby_id,
        name: s.name.clone(),
        host_id: s.host_id,
        participants: s.participants.clone(),
    }
}

struct Node {
    id: PeerId,
    session: SessionLoopV2,
    inbox: Vec<Incoming>,
}

struct SessionFixture {
    nodes: Vec<Node>,
    commands: Vec<DomainCommand>,
    snapshots: Vec<LobbySnapshotV2>,
    lobby_id: Uuid,
}

impl SessionFixture {
    fn new(guest_count: usize) -> Self {
        let lobby_id = random_uuid();
        let mut f = SessionFixture { nodes: Vec::new(), commands: Vec::new(), snapshots: Vec::new(), lobby_id };

        let mut domain = DomainLoop::new(10, 100);
        domain
            .submit(DomainCommand::CreateLobby {
                lobby_id: Some(lobby_id),
                lobby_name: "Test Lobby".to_string(),
                host_name: "Host".to_string(),
            })
            .unwrap();
        domain.poll();
        domain.drain_events();
        f.add_node(SessionLoopV2::new(domain, P2PTransport::new_host(100), true, lobby_id));

        for _ in 0..guest_count {
            let domain = DomainLoop::new(10, 100);
            f.add_node(SessionLoopV2::new(domain, P2PTransport::new_guest(100), false, lobby_id));
        }
        f
    }

    fn add_node(&mut self, session: SessionLoopV2) {
        let id = PeerId::new(random_uuid());
        let mut inbox = Vec::new();
        for other in self.nodes.iter_mut() {
            inbox.push(Incoming::PeerConnected(other.id));
            other.inbox.push(Incoming::PeerConnected(id));
        }
        self.nodes.push(Node { id, session, inbox });
    }

    fn host(&self) -> &SessionLoopV2 {
        &self.nodes[0].session
    }

    fn guest(&self, i: usize) -> &SessionLoopV2 {
        &self.nodes[i + 1].session
    }

    fn encode_command(&mut self, c: DomainCommand) -> serde_json::Value {
        self.commands.push(c);
        serde_json::Value::from((self.commands.len() - 1) as u64)
    }

    fn decode_command(&self, v: &serde_json::Value) -> Option<DomainCommand> {
        v.as_u64().and_then(|i| self.commands.get(i as usize)).cloned()
    }

    fn connected_peers(&self, i: usize) -> Vec<PeerId> {
        self.nodes.iter().enumerate().filter(|(j, _)| *j != i).map(|(_, n)| n.id).collect()
    }

    fn flush(&mut self, i: usize) {
        let to_host = self.nodes[i].session.drain_to_host();
        for c in to_host {
            let payload = self.encode_command(c);
            let peers = self.connected_peers(i);
            let _ = self.nodes[i].session.send_to_host(payload, &peers);
        }
        let from = self.nodes[i].id;
        for out in self.nodes[i].session.drain_outgoing() {
            match out {
                Outgoing::Broadcast(m) => {
                    for (j, n) in self.nodes.iter_mut().enumerate() {
                        if j != i {
                            n.inbox.push(Incoming::Message { from, message: copy_message(&m) });
                        }
                    }
                }
                Outgoing::SendTo(p, m) => {
                    for n in self.nodes.iter_mut() {
                        if n.id == p {
                            n.inbox.push(Incoming::Message { from, message: copy_message(&m) });
                        }
                    }
                }
            }
        }
    }

    fn submit(&mut self, i: usize, c: DomainCommand) {
        self.nodes[i].session.submit_command(c).unwrap();
        self.flush(i);
    }

    fn poll(&mut self, i: usize) {
        for ev in self.nodes[i].session.drain_transport_events() {
            match self.nodes[i].session.on_transport_event(ev) {
                V2Step::Done => {}
                V2Step::SendSnapshot(peer) => {
                    if let Some(s) = self.nodes[i].session.snapshot() {
                        self.snapshots.push(s);
                        let json = serde_json::Value::from((self.snapshots.len() - 1) as u64);
                        let _ = self.nodes[i].session.send_snapshot(peer, json);
                    }
                }
                V2Step::ApplySnapshot(json) => {
                    if let Some(s) = json.as_u64().and_then(|k| self.snapshots.get(k as usize)) {
                        let s = copy_snapshot(s);
                        assert!(s.participants.iter().any(|p| p.is_host()), "Snapshot must have a host");
                        self.nodes[i].session.apply_snapshot(s);
                    }
                }
            }
        }
        let incoming = std::mem::take(&mut self.nodes[i].inbox);
        for payload in self.nodes[i].session.receive(incoming) {
            if let Some(c) = self.decode_command(&payload) {
                self.nodes[i].session.execute(c);
            }
        }
        self.nodes[i].session.run_domain();
        for c in self.nodes[i].session.take_broadcasts() {
            let payload = self.encode_command(c);
            if self.nodes[i].session.next_sequence() < u64::MAX {
                let _ = self.nodes[i].session.broadcast(payload);
            }
        }
        self.flush(i);
    }

    fn tick(&mut self, count: usize) {
        for _ in 0..count {
            for i in 0..self.nodes.len() {
                self.poll(i);
            }
        }
    }
}

fn empty_object() -> serde_json::Value {
    serde_json::Value::Object(serde_json::Map::new())
}

#[test]
fn test_host_creates_lobby() {
    let mut fixture = SessionFixture::new(0);
    fixture.tick(1);
    let lobby = fixture.host().get_lobby().expect("Lobby should exist");
    assert_eq!(lobby.name(), "Test Lobby");
    assert_eq!(lobby.participants().len(), 1);
}

#[test]
fn test_host_creation_with_tracing() {
    let mut fixture = SessionFixture::new(0);
    fixture.tick(1);

    let lobby = fixture.host().get_lobby().expect("Lobby should exist");
    assert_eq!(lobby.name(), "Test Lobby");
    assert_eq!(lobby.participants().len(), 1);
}

#[test]
fn test_guest_joins_lobby() {
    let mut fixture = SessionFixture::new(1);
    fixture.tick(10);

    let lobby_id = fixture.lobby_id;
    fixture.submit(1, DomainCommand::JoinLobby { lobby_id, guest_name: "Alice".to_string() });

    fixture.tick(10);

    let host_lobby = fixture.host().get_lobby().expect("Host lobby should exist");
    let guest_lobby = fixture.guest(0).get_lobby().expect("Guest lobby should exist");
    assert_eq!(host_lobby.participants().len(), 2);
    assert_eq!(guest_lobby.participants().len(), 2);
}

#[test]
fn test_guest_joins_and_syncs_lobby() {
    let mut fixture = SessionFixture::new(1);

    fixture.tick(10);

    let guest_lobby = fixture.guest(0).get_lobby();
    assert!(guest_lobby.is_some(), "Guest should have synced lobby");

    let lobby = guest_lobby.unwrap();
    assert_eq!(lobby.name(), "Test Lobby");
    assert_eq!(lobby.participants().len(), 1);

    let lobby_id = fixture.lobby_id;
    fixture.submit(1, DomainCommand::JoinLobby { lobby_id, guest_name: "Guest1".to_string() });

    fixture.tick(10);

    let host_lobby = fixture.host().get_lobby().unwrap();
    let guest_lobby = fixture.guest(0).get_lobby().unwrap();

    assert_eq!(host_lobby.participants().len(), 2);
    assert_eq!(guest_lobby.participants().len(), 2);
}

#[test]
fn test_multiple_guests() {
    let mut fixture = SessionFixture::new(3);

    fixture.tick(500);

    for i in 0..3 {
        let cmd = DomainCommand::JoinLobby { lobby_id: fixture.lobby_id, guest_name: format!("Guest{}", i + 1) };
        fixture.submit(i + 1, cmd);
    }

    fixture.tick(900);

    let host_count = fixture.host().get_lobby().expect("Host should have lobby").participants().len();
    assert_eq!(host_count, 4, "Host should see 4 participants");

    for index in 0..3 {
        let guest_count = fixture
            .guest(index)
            .get_lobby()
            .unwrap_or_else(|| panic!("Guest {} should have lobby", index + 1))
            .participants()
            .len();
        assert_eq!(guest_count, 4, "Guest {} should see 4 participants", index + 1);
    }
}

#[test]
fn test_activity_queue_and_start_run() {
    let mut fixture = SessionFixture::new(1);
    let lobby_id = fixture.lobby_id;

    fixture.tick(10);

    fixture.submit(1, DomainCommand::JoinLobby { lobby_id, guest_name: "Guest1".to_string() });

    fixture.tick(10);

    let config = ActivityConfig::new("echo-challenge-v1".to_string(), "Echo Test".to_string(), empty_object());

    fixture.submit(0, DomainCommand::QueueActivity { lobby_id, config });

    fixture.tick(10);

    assert_eq!(fixture.host().get_lobby().unwrap().activity_queue().len(), 1);
    assert_eq!(fixture.guest(0).get_lobby().unwrap().activity_queue().len(), 1);

    fixture.submit(0, DomainCommand::StartNextRun { lobby_id });

    fixture.tick(10);

    assert!(fixture.host().get_lobby().unwrap().has_active_run());
    assert!(fixture.host().get_lobby().unwrap().activity_queue().is_empty());
}

#[test]
fn test_activity_completion() {
    let mut fixture = SessionFixture::new(1);
    let lobby_id = fixture.lobby_id;

    fixture.tick(200);

    fixture.submit(1, DomainCommand::JoinLobby { lobby_id, guest_name: "Guest1".to_string() });

    fixture.tick(250);

    let host_lobby = fixture.host().get_lobby().unwrap();
    let host_participant_id =
        host_lobby.participants().values().find(|p| p.is_host()).expect("Host participant").id();
    let guest_participant_id = host_lobby
        .participants()
        .values()
        .find(|p| !p.is_host())
        .expect("Guest participant on host")
        .id();

    let config = ActivityConfig::new("echo-challenge-v1".to_string(), "Echo Test".to_string(), empty_object());

    fixture.submit(0, DomainCommand::QueueActivity { lobby_id, config });

    fixture.tick(250);

    fixture.submit(0, DomainCommand::StartNextRun { lobby_id });

    fixture.tick(250);

    let run_id = fixture.host().get_lobby().unwrap().active_run_id().expect("Run should be active");

    fixture.submit(
        0,
        DomainCommand::SubmitResult {
            lobby_id,
            run_id,
            result: ActivityResult::new(run_id, host_participant_id).with_score(100),
        },
    );

    fixture.tick(250);

    fixture.submit(
        1,
        DomainCommand::SubmitResult {
            lobby_id,
            run_id,
            result: ActivityResult::new(run_id, guest_participant_id).with_score(80),
        },
    );

    fixture.tick(400);

    assert!(!fixture.host().get_lobby().unwrap().has_active_run());
}

#[test]
fn snapshot_of_host_lists_its_participants() {
    let fixture = SessionFixture::new(0);
    let s = fixture.host().snapshot().unwrap();
    assert_eq!(s.lobby_id, fixture.lobby_id);
    assert_eq!(s.name, "Test Lobby");
    assert_eq!(s.participants.len(), 1);
    assert_eq!(s.host_id, s.participants[0].id());
    assert!(fixture.host().is_host());
    assert_eq!(fixture.host().lobby_id(), fixture.lobby_id);
}

#[test]
fn guest_without_lobby_has_no_snapshot() {
    let domain = DomainLoop::new(10, 10);
    let guest = SessionLoopV2::new(domain, P2PTransport::new_guest(10), false, 5);
    assert!(guest.snapshot().is_none());
    assert!(guest.get_lobby().is_none());
    assert!(!guest.is_host());
}

#[test]
fn host_event_becomes_command_for_guests() {
    let mut fixture = SessionFixture::new(0);
    let lobby_id = fixture.lobby_id;
    fixture.nodes[0]
        .session
        .submit_command(DomainCommand::JoinLobby { lobby_id, guest_name: "Zed".to_string() })
        .unwrap();
    fixture.nodes[0].session.run_domain();
    let cmds = fixture.nodes[0].session.take_broadcasts();
    assert_eq!(cmds.len(), 1);
    match &cmds[0] {
        DomainCommand::AddParticipant { lobby_id: l, participant } => {
            assert_eq!(*l, lobby_id);
            assert_eq!(participant.name(), "Zed");
        }
        c => panic!("Expected AddParticipant, got {:?}", c),
    }
}

#[test]
fn guest_keeps_commands_for_the_host() {
    let domain = DomainLoop::new(10, 10);
    let mut guest = SessionLoopV2::new(domain, P2PTransport::new_guest(10), false, 5);
    guest.submit_command(DomainCommand::StartNextRun { lobby_id: 5 }).unwrap();
    assert_eq!(guest.drain_to_host(), vec![DomainCommand::StartNextRun { lobby_id: 5 }]);
    assert!(guest.drain_to_host().is_empty());
    assert!(guest.send_to_host(serde_json::Value::from(1), &vec![]).is_err());
}

#[test]
fn guests_follow_the_hosts_run() {
    let mut fixture = SessionFixture::new(1);
    let lobby_id = fixture.lobby_id;
    fixture.tick(10);
    fixture.submit(1, DomainCommand::JoinLobby { lobby_id, guest_name: "Guest1".to_string() });
    fixture.tick(10);
    let config = ActivityConfig::new("echo-challenge-v1".to_string(), "Echo".to_string(), empty_object());
    fixture.submit(0, DomainCommand::QueueActivity { lobby_id, config });
    fixture.tick(10);
    fixture.submit(0, DomainCommand::StartNextRun { lobby_id });
    fixture.tick(10);
    let host_run = fixture.host().get_lobby().unwrap().active_run_id().expect("Run should be active");
    assert_eq!(fixture.guest(0).get_lobby().unwrap().active_run_id(), Some(host_run));

    fixture.submit(0, DomainCommand::CancelRun { lobby_id, run_id: host_run });
    fixture.tick(10);
    assert!(!fixture.host().get_lobby().unwrap().has_active_run());
    assert!(!fixture.guest(0).get_lobby().unwrap().has_active_run());
}

#[test]
fn started_run_is_sent_with_its_submitters() {
    let mut fixture = SessionFixture::new(0);
    let lobby_id = fixture.lobby_id;
    let config = ActivityConfig::new("quiz".to_string(), "Q".to_string(), empty_object());
    fixture.nodes[0].session.submit_command(DomainCommand::QueueActivity { lobby_id, config }).unwrap();
    fixture.nodes[0].session.submit_command(DomainCommand::StartNextRun { lobby_id }).unwrap();
    fixture.nodes[0].session.run_domain();
    let cmds = fixture.nodes[0].session.take_broadcasts();
    let host_id = fixture.host().get_lobby().unwrap().host_id();
    match &cmds[1] {
        DomainCommand::SyncRunStarted { lobby_id: l, run_id, required_submitters, .. } => {
            assert_eq!(*l, lobby_id);
            assert_eq!(Some(*run_id), fixture.host().get_lobby().unwrap().active_run_id());
            assert_eq!(required_submitters, &vec![host_id]);
        }
        c => panic!("Expected SyncRunStarted, got {:?}", c),
    }
}
