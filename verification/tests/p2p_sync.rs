use konnekt_session::application::commands::DomainCommand;
use konnekt_session::ident::Uuid;
use konnekt_session::p2p::event::{DomainEvent, LobbyEvent};
use konnekt_session::p2p::peer::PeerId;
use konnekt_session::p2p::sync_manager::{EventSyncManager, SyncError, SyncMessage, SyncResponse};
use konnekt_session::p2p::transport::{Incoming, MessageKind, Outgoing, P2PMessage, P2PTransport, TransportEvent};

fn random_uuid() -> u128 {
    uuid::Uuid::new_v4().as_u128()
}

fn create_test_command() -> DomainCommand {
    DomainCommand::JoinLobby { lobby_id: random_uuid(), guest_name: "Alice".to_string() }
}

fn left(lobby_id: Uuid, seq: u64) -> LobbyEvent {
    LobbyEvent::new(seq, lobby_id, DomainEvent::GuestLeft { participant_id: random_uuid() })
}

#[test]
fn test_host_receives_command_request() {
    let lobby_id = random_uuid();
    let mut sync = EventSyncManager::new_host(lobby_id);
    let peer = PeerId::new(random_uuid());

    let msg = SyncMessage::CommandRequest { command: create_test_command() };

    let response = sync.handle_message(peer, msg).unwrap();

    match response {
        SyncResponse::ProcessCommand { command } => {
            assert!(matches!(command, DomainCommand::JoinLobby { .. }));
        }
        _ => panic!("Expected ProcessCommand"),
    }
}

#[test]
fn test_guest_ignores_command_request() {
    let lobby_id = random_uuid();
    let mut sync = EventSyncManager::new_guest(lobby_id);
    let peer = PeerId::new(random_uuid());

    let msg = SyncMessage::CommandRequest { command: create_test_command() };

    let response = sync.handle_message(peer, msg).unwrap();

    match response {
        SyncResponse::NoAction => {}
        _ => panic!("Guest should ignore CommandRequest"),
    }
}

#[test]
fn test_host_creates_events() {
    let lobby_id = random_uuid();
    let mut sync = EventSyncManager::new_host(lobby_id);

    let result = sync.create_event(DomainEvent::LobbyCreated {
        lobby_id,
        host_id: random_uuid(),
        name: "Test".to_string(),
    });

    assert!(result.is_ok());

    if let SyncMessage::EventBroadcast { event } = result.unwrap() {
        assert_eq!(event.sequence, 1);
        assert_eq!(event.lobby_id, lobby_id);
    } else {
        panic!("Expected EventBroadcast");
    }
}

#[test]
fn guest_cannot_create_events() {
    let mut sync = EventSyncManager::new_guest(random_uuid());
    let r = sync.create_event(DomainEvent::GuestLeft { participant_id: random_uuid() });
    assert!(matches!(r, Err(SyncError::NotHost)));
    assert_eq!(SyncError::NotHost.message(), "Not the host");
    assert_eq!(SyncError::OutOfOrder.name(), "OutOfOrder");
}

#[test]
fn test_guest_applies_in_order_events() {
    let lobby_id = random_uuid();
    let mut sync = EventSyncManager::new_guest(lobby_id);
    let peer = PeerId::new(random_uuid());

    for seq in 1..=3 {
        let event = left(lobby_id, seq);

        let msg = SyncMessage::EventBroadcast { event };
        let response = sync.handle_message(peer, msg).unwrap();

        match response {
            SyncResponse::ApplyEvents { events } => {
                assert_eq!(events.len(), 1);
                assert_eq!(events[0].sequence, seq);
            }
            _ => panic!("Expected ApplyEvents"),
        }
    }

    assert_eq!(sync.current_sequence(), 3);
}

#[test]
fn guest_buffers_out_of_order_events_then_applies_them_in_order() {
    let lobby_id = random_uuid();
    let mut sync = EventSyncManager::new_guest(lobby_id);
    let peer = PeerId::new(random_uuid());

    let r = sync.handle_message(peer, SyncMessage::EventBroadcast { event: left(lobby_id, 2) }).unwrap();
    assert!(matches!(r, SyncResponse::NoAction));
    assert_eq!(sync.pending_count(), 1);
    assert_eq!(sync.current_sequence(), 0);

    let r = sync.handle_message(peer, SyncMessage::EventBroadcast { event: left(lobby_id, 1) }).unwrap();
    match r {
        SyncResponse::ApplyEvents { events } => {
            let seqs: Vec<u64> = events.iter().map(|e| e.sequence).collect();
            assert_eq!(seqs, vec![1, 2]);
        }
        _ => panic!("Expected ApplyEvents"),
    }
    assert_eq!(sync.pending_count(), 0);
    assert_eq!(sync.current_sequence(), 2);
}

#[test]
fn event_of_other_lobby_is_refused() {
    let lobby_id = random_uuid();
    let mut sync = EventSyncManager::new_guest(lobby_id);
    let r = sync.handle_message(PeerId::new(1), SyncMessage::EventBroadcast { event: left(random_uuid(), 1) });
    assert!(matches!(r, Err(SyncError::WrongLobby)));
}

#[test]
fn promoted_guest_numbers_from_its_own_counter() {
    let lobby_id = random_uuid();
    let mut sync = EventSyncManager::new_guest(lobby_id);
    sync.handle_message(PeerId::new(1), SyncMessage::EventBroadcast { event: left(lobby_id, 1) }).unwrap();
    sync.promote_to_host();
    match sync.create_event(DomainEvent::GuestLeft { participant_id: 3 }).unwrap() {
        SyncMessage::EventBroadcast { event } => assert_eq!(event.sequence, 1),
        _ => panic!("Expected EventBroadcast"),
    }
}

#[test]
fn host_asks_for_snapshot_on_full_sync_request() {
    let lobby_id = random_uuid();
    let mut sync = EventSyncManager::new_host(lobby_id);
    let peer = PeerId::new(9);
    let r = sync.handle_message(peer, SyncMessage::RequestFullSync { lobby_id }).unwrap();
    match r {
        SyncResponse::NeedSnapshot { for_peer, since_sequence } => {
            assert_eq!(for_peer, peer);
            assert_eq!(since_sequence, 0);
        }
        _ => panic!("Expected NeedSnapshot"),
    }
    assert!(matches!(sync.request_full_sync(), Err(SyncError::AlreadyHost)));
}

#[test]
fn test_transport_event_types() {
    let peer = PeerId::new(random_uuid());
    let event = TransportEvent::PeerConnected(peer);

    match event {
        TransportEvent::PeerConnected(_) => assert!(true),
        _ => panic!("Wrong event type"),
    }
}

#[test]
fn test_snapshot_request_event() {
    let peer = PeerId::new(random_uuid());
    let event = TransportEvent::SnapshotRequested { from: peer };

    match event {
        TransportEvent::SnapshotRequested { from } => {
            assert_eq!(from, peer);
        }
        _ => panic!("Wrong event type"),
    }
}

#[test]
fn test_snapshot_received_event() {
    let mut obj = serde_json::Map::new();
    obj.insert("test".to_string(), serde_json::Value::from("data"));
    let snapshot = serde_json::Value::Object(obj);
    let event = TransportEvent::SnapshotReceived { snapshot: snapshot.clone(), as_of_sequence: 42 };

    match event {
        TransportEvent::SnapshotReceived { as_of_sequence, .. } => {
            assert_eq!(as_of_sequence, 42);
        }
        _ => panic!("Wrong event type"),
    }
}

#[test]
fn test_snapshot_request() {
    let msg = P2PMessage::snapshot_request();
    assert!(matches!(msg.kind, MessageKind::SnapshotRequest));
    assert_eq!(msg.sequence, 0);
}

fn app(seq: u64, n: i64) -> P2PMessage {
    P2PMessage { sequence: seq, kind: MessageKind::Application { payload: serde_json::Value::from(n) } }
}

#[test]
fn host_numbers_and_broadcasts_messages() {
    let mut host = P2PTransport::new_host(10);
    assert_eq!(host.send(serde_json::Value::from(1)).unwrap(), 1);
    assert_eq!(host.send(serde_json::Value::from(2)).unwrap(), 2);
    let out = host.drain_outgoing();
    assert_eq!(out.len(), 2);
    match &out[1] {
        Outgoing::Broadcast(m) => assert_eq!(m.sequence, 2),
        _ => panic!("Expected Broadcast"),
    }
    assert!(host.drain_outgoing().is_empty());
}

#[test]
fn guest_cannot_broadcast() {
    let mut guest = P2PTransport::new_guest(10);
    assert!(guest.send(serde_json::Value::from(1)).is_err());
    assert!(guest.send_snapshot(PeerId::new(1), serde_json::Value::Null).is_err());
    assert!(guest.send_to_host(serde_json::Value::from(1), &vec![]).is_err());
    assert!(guest.send_to_host(serde_json::Value::from(1), &vec![PeerId::new(4)]).is_ok());
    match &guest.drain_outgoing()[0] {
        Outgoing::SendTo(p, m) => {
            assert_eq!(*p, PeerId::new(4));
            assert_eq!(m.sequence, 0);
        }
        _ => panic!("Expected SendTo"),
    }
}

#[test]
fn guest_delivers_in_order_and_asks_for_gaps() {
    let mut guest = P2PTransport::new_guest(10);
    let host = PeerId::new(1);
    let delivered = guest.poll(vec![
        Incoming::Message { from: host, message: app(1, 10) },
        Incoming::Message { from: host, message: app(3, 30) },
    ]);
    assert_eq!(delivered, vec![serde_json::Value::from(10)]);
    let out = guest.drain_outgoing();
    assert_eq!(out.len(), 1);
    match &out[0] {
        Outgoing::Broadcast(P2PMessage { kind: MessageKind::ResendRequest { from, to }, .. }) => {
            assert_eq!((*from, *to), (2, 2));
        }
        _ => panic!("Expected ResendRequest"),
    }
    let delivered = guest.poll(vec![Incoming::Message { from: host, message: app(2, 20) }]);
    assert_eq!(delivered, vec![serde_json::Value::from(20), serde_json::Value::from(30)]);
    // A duplicate is dropped.
    assert!(guest.poll(vec![Incoming::Message { from: host, message: app(2, 20) }]).is_empty());
}

#[test]
fn host_answers_resend_requests_from_cache() {
    let mut host = P2PTransport::new_host(2);
    for n in 1..=3 {
        host.send(serde_json::Value::from(n)).unwrap();
    }
    host.drain_outgoing();
    let peer = PeerId::new(7);
    host.poll(vec![Incoming::Message {
        from: peer,
        message: P2PMessage::resend_request(1, 3),
    }]);
    let out = host.drain_outgoing();
    assert_eq!(out.len(), 1);
    match &out[0] {
        Outgoing::SendTo(p, P2PMessage { kind: MessageKind::ResendResponse { messages }, .. }) => {
            assert_eq!(*p, peer);
            let seqs: Vec<u64> = messages.iter().map(|m| m.sequence).collect();
            assert_eq!(seqs, vec![2, 3]);
        }
        _ => panic!("Expected ResendResponse"),
    }
}

#[test]
fn snapshot_requests_and_connections_become_events() {
    let mut host = P2PTransport::new_host(10);
    let peer = PeerId::new(5);
    host.poll(vec![
        Incoming::PeerConnected(peer),
        Incoming::Message { from: peer, message: P2PMessage::snapshot_request() },
    ]);
    let events = host.drain_events();
    assert_eq!(events.len(), 2);
    assert!(matches!(events[0], TransportEvent::PeerConnected(p) if p == peer));
    assert!(matches!(events[1], TransportEvent::SnapshotRequested { from } if from == peer));

    host.send(serde_json::Value::from(1)).unwrap();
    host.send_snapshot(peer, serde_json::Value::from("state")).unwrap();
    let out = host.drain_outgoing();
    match &out[1] {
        Outgoing::SendTo(_, P2PMessage { kind: MessageKind::SnapshotResponse { as_of_sequence, .. }, .. }) => {
            assert_eq!(*as_of_sequence, 1)
        }
        _ => panic!("Expected SnapshotResponse"),
    }

    let mut guest = P2PTransport::new_guest(10);
    guest.poll(vec![Incoming::Message {
        from: peer,
        message: P2PMessage::snapshot_response(serde_json::Value::from("state"), 7),
    }]);
    match &guest.drain_events()[0] {
        TransportEvent::SnapshotReceived { as_of_sequence, .. } => assert_eq!(*as_of_sequence, 7),
        _ => panic!("Expected SnapshotReceived"),
    }
    // The snapshot leaves the numbering of application messages as it was.
    assert_eq!(
        guest.poll(vec![Incoming::Message { from: peer, message: app(1, 10) }]),
        vec![serde_json::Value::from(10)]
    );
}
