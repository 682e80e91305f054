use konnekt_session::application::commands::DomainCommand;
use konnekt_session::application::events::DomainEvent as CoreDomainEvent;
use konnekt_session::domain::activity::{ActivityConfig, ActivityResult};
use konnekt_session::domain::activity_run::RunStatus;
use konnekt_session::domain::lobby::Lobby;
use konnekt_session::domain::participant::{ParticipationMode, Participant};
use konnekt_session::p2p::builders::{room_url, P2PLoopBuilder, P2PTransportBuilder, SessionLoopV2Builder};
use konnekt_session::p2p::config::SessionConfig;
use konnekt_session::p2p::event::{DomainEvent as P2PDomainEvent, LobbyEvent};
use konnekt_session::p2p::event_translator::EventTranslator;
use konnekt_session::p2p::ice_server::{build_ice_server_config, IceServer};
use konnekt_session::p2p::message_queue::{MessageQueue, QueueError};
use konnekt_session::p2p::peer::PeerId;
use konnekt_session::p2p::session_id::SessionId;

fn random_uuid() -> u128 {
    uuid::Uuid::new_v4().as_u128()
}

fn empty_object() -> serde_json::Value {
    serde_json::Value::Object(serde_json::Map::new())
}

#[test]
fn test_default_config() {
    let config = SessionConfig::default();
    assert_eq!(config.signalling_server, "wss://match.konnektoren.help");
    assert_eq!(config.poll_interval_ms, 100);
    assert!(!config.ice_servers.is_empty());
}

#[test]
fn test_with_stun_server() {
    let config = SessionConfig::default().with_stun_server("stun:custom.stun.server:3478".to_string());
    assert!(config
        .ice_servers
        .iter()
        .any(|s| s.urls.contains(&"stun:custom.stun.server:3478".to_string())));
}

#[test]
fn test_with_turn_server() {
    let config = SessionConfig::default().with_turn_server(
        "turn:turn.example.com:3478".to_string(),
        "user".to_string(),
        "pass".to_string(),
    );
    assert!(config.ice_servers.iter().any(|s| s.username.is_some()));
}

#[test]
fn test_with_ice_servers() {
    let custom_servers = vec![IceServer::stun("stun:custom.com:3478".to_string())];
    let config = SessionConfig::default().with_ice_servers(custom_servers.clone());
    assert_eq!(config.ice_servers.len(), 1);
    assert_eq!(config.ice_servers[0], custom_servers[0]);
}

#[test]
fn config_new_and_add_servers() {
    let config = SessionConfig::new("wss://example.org".to_string())
        .with_poll_interval(50)
        .add_ice_servers(vec![IceServer::stun("stun:a:1".to_string())]);
    assert_eq!(config.signalling_server, "wss://example.org");
    assert_eq!(config.poll_interval_ms, 50);
    assert_eq!(config.ice_servers.len(), 6);
    assert_eq!(config.ice_servers[5].urls, vec!["stun:a:1".to_string()]);
}

#[test]
fn test_stun_server() {
    let server = IceServer::stun("stun:stun.l.google.com:19302".to_string());
    assert_eq!(server.urls.len(), 1);
    assert_eq!(server.urls[0], "stun:stun.l.google.com:19302");
    assert!(server.username.is_none());
    assert!(server.credential.is_none());
}

#[test]
fn test_turn_server() {
    let server = IceServer::turn(
        "turn:turn.example.com:3478".to_string(),
        "user".to_string(),
        "pass".to_string(),
    );
    assert_eq!(server.urls.len(), 1);
    assert_eq!(server.username, Some("user".to_string()));
    assert_eq!(server.credential, Some("pass".to_string()));
}

#[test]
fn test_with_auth() {
    let server = IceServer::stun("turn:turn.example.com:3478".to_string())
        .with_auth("user".to_string(), "pass".to_string());
    assert_eq!(server.username, Some("user".to_string()));
    assert_eq!(server.credential, Some("pass".to_string()));
}

#[test]
fn test_default_stun_servers() {
    let servers = IceServer::default_stun_servers();
    assert_eq!(servers.len(), 5);
    assert!(servers.iter().all(|s| s.username.is_none()));
    assert_eq!(servers[0].urls, vec!["stun:stun.l.google.com:19302".to_string()]);
}

#[test]
fn test_from_urls() {
    let urls = vec!["stun:stun1.example.com:3478".to_string(), "stun:stun2.example.com:3478".to_string()];
    let server = IceServer::from_urls(urls.clone());
    assert_eq!(server.urls, urls);
}

#[test]
fn test_build_ice_server_config_stun_only() {
    let servers = vec![IceServer::stun("stun:stun.l.google.com:19302".to_string())];

    let config = build_ice_server_config(&servers);
    assert_eq!(config.urls, vec!["stun:stun.l.google.com:19302"]);
    assert!(config.username.is_none());
    assert!(config.credential.is_none());
}

#[test]
fn test_build_ice_server_config_with_turn() {
    let servers = vec![IceServer::turn(
        "turn:turn.example.com:3478".to_string(),
        "user".to_string(),
        "pass".to_string(),
    )];

    let config = build_ice_server_config(&servers);
    assert_eq!(config.urls, vec!["turn:turn.example.com:3478"]);
    assert_eq!(config.username, Some("user".to_string()));
    assert_eq!(config.credential, Some("pass".to_string()));
}

#[test]
fn test_build_ice_server_config_multiple_urls() {
    let servers = vec![IceServer::from_urls(vec![
        "stun:stun1.example.com:3478".to_string(),
        "stun:stun2.example.com:3478".to_string(),
    ])];

    let config = build_ice_server_config(&servers);
    assert_eq!(config.urls, vec!["stun:stun1.example.com:3478", "stun:stun2.example.com:3478"]);
}

#[test]
fn test_build_ice_server_config_empty() {
    let servers = vec![];
    let config = build_ice_server_config(&servers);

    assert!(!config.urls.is_empty());
    assert!(config.username.is_none());
}

#[test]
fn test_wasm_compilation() {
    let _ = IceServer::default_stun_servers();
}

#[test]
fn session_test_session_id_new() {
    let id1 = SessionId::new();
    let id2 = SessionId::new();
    assert_ne!(id1, id2);
}

#[test]
fn session_test_session_id_parse() {
    let uuid_str = "550e8400-e29b-41d4-a716-446655440000";
    let session_id = SessionId::parse(uuid_str).unwrap();
    assert_eq!(session_id.as_str(), uuid_str);
    assert_eq!(session_id.inner(), 0x550e8400e29b41d4a716446655440000u128);
}

#[test]
fn session_test_session_id_parse_invalid() {
    let result = SessionId::parse("not-a-uuid");
    assert!(result.is_err());
}

#[test]
fn session_test_session_id_display() {
    let session_id = SessionId::new();
    let display = session_id.to_string();
    assert!(SessionId::parse(&display).is_ok());
    assert_eq!(SessionId::parse(&display).unwrap(), session_id);
}

#[test]
fn session_test_session_id_default() {
    let id1 = SessionId::default();
    let id2 = SessionId::default();
    assert_ne!(id1, id2);
}

#[test]
fn session_id_parse_accepts_upper_case() {
    let id = SessionId::parse("550E8400-E29B-41D4-A716-446655440000").unwrap();
    assert_eq!(id.as_str(), "550e8400-e29b-41d4-a716-446655440000");
}

#[test]
fn room_url_joins_server_and_id() {
    let id = SessionId::parse("550e8400-e29b-41d4-a716-446655440000").unwrap();
    assert_eq!(room_url("wss://m.example", &id), "wss://m.example/550e8400-e29b-41d4-a716-446655440000");
}

#[test]
fn peer_test_peer_id_display() {
    let uuid = uuid::Uuid::new_v4();
    let peer_id = PeerId(uuid.as_u128());
    let display = peer_id.to_string();
    assert!(!display.is_empty());
    assert_eq!(display, uuid.to_string());
}

#[test]
fn peer_test_peer_id_equality() {
    let uuid1 = random_uuid();
    let uuid2 = random_uuid();

    let id1 = PeerId(uuid1);
    let id2 = PeerId(uuid1);
    let id3 = PeerId(uuid2);

    assert_eq!(id1, id2);
    assert_ne!(id1, id3);
}

#[test]
fn runtime_builder_test_builder_defaults() {
    let builder = P2PLoopBuilder::new();
    assert_eq!(builder.batch_size, 10);
    assert_eq!(builder.queue_size, 100);
}

#[test]
fn test_builder_custom() {
    let builder = P2PLoopBuilder::new().batch_size(20).queue_size(200);
    assert_eq!(builder.batch_size, 20);
    assert_eq!(builder.queue_size, 200);
}

#[test]
fn transport_builder_test_builder_defaults() {
    let builder = P2PTransportBuilder::new();
    assert_eq!(builder.cache_size, 100);
}

#[test]
fn test_builder_custom_cache() {
    let builder = P2PTransportBuilder::new().cache_size(200);
    assert_eq!(builder.cache_size, 200);
}

#[test]
fn session_loop_v2_builder_settings() {
    let b = SessionLoopV2Builder::new();
    assert_eq!((b.batch_size, b.queue_size, b.cache_size), (10, 100, 100));
    let b = b.batch_size(1).queue_size(2).cache_size(3);
    assert_eq!((b.batch_size, b.queue_size, b.cache_size), (1, 2, 3));
}

#[test]
fn test_core_lobby_created_to_p2p() {
    let lobby_id = random_uuid();
    let translator = EventTranslator::new(lobby_id);

    let host = Participant::new_host("Host".to_string()).unwrap();
    let lobby = Lobby::with_id(lobby_id, "Test".to_string(), host).unwrap();

    let p2p_event = translator.to_p2p_event(CoreDomainEvent::LobbyCreated { lobby });

    match p2p_event {
        Some(P2PDomainEvent::LobbyCreated { lobby_id: lid, name, .. }) => {
            assert_eq!(lid, lobby_id);
            assert_eq!(name, "Test");
        }
        _ => panic!("Expected LobbyCreated, got: {:?}", p2p_event),
    }
}

#[test]
fn test_command_failed_not_translated() {
    let translator = EventTranslator::new(random_uuid());
    let p2p_event = translator.to_p2p_event(CoreDomainEvent::CommandFailed {
        command: "Test".to_string(),
        reason: "Error".to_string(),
    });
    assert!(p2p_event.is_none());
}

#[test]
fn test_activity_queued_roundtrip() {
    let lobby_id = random_uuid();
    let translator = EventTranslator::new(lobby_id);

    let config = ActivityConfig::new("quiz".to_string(), "Q1".to_string(), empty_object());

    let core_event = CoreDomainEvent::ActivityQueued { lobby_id, config: config.clone() };
    let p2p_event = translator.to_p2p_event(core_event).expect("Should translate");

    let command = translator.to_domain_command(&p2p_event).expect("Should map to command");

    match command {
        DomainCommand::QueueActivity { lobby_id: lid, config: c } => {
            assert_eq!(lid, lobby_id);
            assert_eq!(c.activity_type, "quiz");
        }
        _ => panic!("Expected QueueActivity, got {:?}", command),
    }
}

#[test]
fn test_result_submitted_translation() {
    let lobby_id = random_uuid();
    let translator = EventTranslator::new(lobby_id);

    let run_id = random_uuid();
    let participant_id = random_uuid();
    let result = ActivityResult::new(run_id, participant_id).with_score(100);

    let core_event = CoreDomainEvent::ResultSubmitted { lobby_id, run_id, result: result.clone() };

    let p2p_event = translator.to_p2p_event(core_event).expect("Should translate");

    match &p2p_event {
        P2PDomainEvent::ResultSubmitted { run_id: rid, result: res } => {
            assert_eq!(*rid, run_id);
            assert_eq!(res.participant_id, participant_id);
            assert_eq!(res.score, Some(100));
        }
        _ => panic!("Expected ResultSubmitted"),
    }

    let command = translator.to_domain_command(&p2p_event).expect("Should map");
    match command {
        DomainCommand::SubmitResult { run_id: rid, .. } => assert_eq!(rid, run_id),
        _ => panic!("Expected SubmitResult"),
    }
}

#[test]
fn test_run_ended_not_a_command() {
    let translator = EventTranslator::new(random_uuid());
    let p2p_event = P2PDomainEvent::RunEnded { run_id: random_uuid(), status: RunStatus::Completed, results: vec![] };
    assert!(translator.to_domain_command(&p2p_event).is_none());
}

#[test]
fn mode_change_translates_both_ways() {
    let lobby_id = random_uuid();
    let translator = EventTranslator::new(lobby_id);
    let pid = random_uuid();
    let core = CoreDomainEvent::ParticipationModeChanged {
        lobby_id,
        participant_id: pid,
        new_mode: ParticipationMode::Spectating,
    };
    let p2p = translator.to_p2p_event(core).unwrap();
    assert_eq!(
        p2p,
        P2PDomainEvent::ParticipationModeChanged { participant_id: pid, new_mode: "Spectating".to_string() }
    );
    assert_eq!(
        translator.to_domain_command(&p2p),
        Some(DomainCommand::UpdateParticipantMode {
            lobby_id,
            participant_id: pid,
            new_mode: ParticipationMode::Spectating
        })
    );
    let unknown = P2PDomainEvent::ParticipationModeChanged { participant_id: pid, new_mode: "Sleeping".to_string() };
    assert_eq!(translator.to_domain_command(&unknown), None);
}

fn create_test_event() -> LobbyEvent {
    let lobby_id = random_uuid();
    LobbyEvent::new(
        1,
        lobby_id,
        P2PDomainEvent::LobbyCreated { lobby_id, host_id: random_uuid(), name: "Test".to_string() },
    )
}

#[test]
fn message_queue_test_push_pop() {
    let mut queue = MessageQueue::new(10);
    let event = create_test_event();

    queue.push(event.clone()).unwrap();
    assert_eq!(queue.len(), 1);

    let popped = queue.pop().unwrap();
    assert_eq!(popped.sequence, event.sequence);
    assert!(queue.is_empty());
}

#[test]
fn message_queue_test_queue_full() {
    let mut queue = MessageQueue::new(2);

    queue.push(create_test_event()).unwrap();
    queue.push(create_test_event()).unwrap();

    let result = queue.push(create_test_event());
    assert_eq!(result, Err(QueueError::Full { max: 2 }));
}

#[test]
fn message_queue_test_drain() {
    let mut queue = MessageQueue::new(10);
    for _ in 0..3 {
        queue.push(create_test_event()).unwrap();
    }

    let drained = queue.drain();
    assert_eq!(drained.len(), 3);
    assert!(queue.is_empty());
}

#[test]
fn message_queue_test_fifo_order() {
    let mut queue = MessageQueue::new(10);
    let lobby_id = random_uuid();

    for seq in 1..=5 {
        queue
            .push(LobbyEvent::new(seq, lobby_id, P2PDomainEvent::GuestLeft { participant_id: random_uuid() }))
            .unwrap();
    }

    for seq in 1..=5 {
        let event = queue.pop().unwrap();
        assert_eq!(event.sequence, seq);
    }
}

#[test]
fn message_queue_test_default() {
    let queue = MessageQueue::default();
    assert_eq!(queue.capacity(), 100);
    assert!(queue.is_empty());
}
