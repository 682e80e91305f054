use konnekt_session::application::command_queue::{CommandQueue, QueueError};
use konnekt_session::application::commands::DomainCommand;
use konnekt_session::application::domain_loop::DomainLoop;
use konnekt_session::application::event_loop::{DomainEventLoop, Fresh};
use konnekt_session::application::events::DomainEvent;
use konnekt_session::domain::activity::{ActivityConfig, ActivityResult};
use konnekt_session::domain::activity_run::RunStatus;
use konnekt_session::domain::participant::{ParticipationMode, Timestamp};
use konnekt_session::ident::Uuid;
use konnekt_session::p2p::builders::host_domain;

fn random_uuid() -> u128 {
    uuid::Uuid::new_v4().as_u128()
}

fn create(name: &str, host: &str) -> DomainCommand {
    DomainCommand::CreateLobby { lobby_id: None, lobby_name: name.to_string(), host_name: host.to_string() }
}

fn empty_object() -> serde_json::Value {
    serde_json::Value::Object(serde_json::Map::new())
}

fn create_lobby(el: &mut DomainEventLoop, name: &str, host: &str) -> (Uuid, Uuid) {
    match el.handle_command(create(name, host)) {
        DomainEvent::LobbyCreated { lobby } => (lobby.id(), lobby.host_id()),
        e => panic!("Expected LobbyCreated, got {:?}", e),
    }
}

fn join_lobby(el: &mut DomainEventLoop, lobby_id: Uuid, name: &str) -> Uuid {
    match el.handle_command(DomainCommand::JoinLobby { lobby_id, guest_name: name.to_string() }) {
        DomainEvent::GuestJoined { participant, .. } => participant.id(),
        e => panic!("Expected GuestJoined, got {:?}", e),
    }
}

fn start_run(el: &mut DomainEventLoop, lobby_id: Uuid) -> Uuid {
    let config = ActivityConfig::new("quiz".to_string(), "Q1".to_string(), empty_object());
    el.handle_command(DomainCommand::QueueActivity { lobby_id, config });
    match el.handle_command(DomainCommand::StartNextRun { lobby_id }) {
        DomainEvent::RunStarted { run_id, .. } => run_id,
        e => panic!("Expected RunStarted, got {:?}", e),
    }
}

#[test]
fn event_loop_test_create_lobby() {
    let mut el = DomainEventLoop::new();
    let (lobby_id, _) = create_lobby(&mut el, "Test", "Alice");
    assert!(el.get_lobby(&lobby_id).is_some());
}

#[test]
fn test_start_run_and_submit_result() {
    let mut el = DomainEventLoop::new();
    let (lobby_id, host_id) = create_lobby(&mut el, "Test", "Alice");
    let run_id = start_run(&mut el, lobby_id);

    assert!(el.get_lobby(&lobby_id).unwrap().has_active_run());

    let result = ActivityResult::new(run_id, host_id);
    let event = el.handle_command(DomainCommand::SubmitResult { lobby_id, run_id, result });

    match event {
        DomainEvent::RunEnded { status, .. } => {
            assert_eq!(status, RunStatus::Completed);
            assert!(!el.get_lobby(&lobby_id).unwrap().has_active_run());
        }
        e => panic!("Expected RunEnded, got {:?}", e),
    }
}

#[test]
fn event_loop_test_remove_submitter_completes_run() {
    let mut el = DomainEventLoop::new();
    let (lobby_id, host_id) = create_lobby(&mut el, "Test", "Alice");
    let guest_id = join_lobby(&mut el, lobby_id, "Bob");
    let run_id = start_run(&mut el, lobby_id);

    el.handle_command(DomainCommand::SubmitResult {
        lobby_id,
        run_id,
        result: ActivityResult::new(run_id, host_id),
    });

    let event =
        el.handle_command(DomainCommand::RemoveSubmitter { lobby_id, run_id, participant_id: guest_id });
    match event {
        DomainEvent::RunEnded { status, .. } => assert_eq!(status, RunStatus::Completed),
        e => panic!("Expected RunEnded, got {:?}", e),
    }
}

#[test]
fn test_toggle_participation_mode_blocked_during_run() {
    let mut el = DomainEventLoop::new();
    let (lobby_id, _host_id) = create_lobby(&mut el, "Test", "Alice");
    let guest_id = join_lobby(&mut el, lobby_id, "Bob");
    start_run(&mut el, lobby_id);

    let event = el.handle_command(DomainCommand::ToggleParticipationMode {
        lobby_id,
        participant_id: guest_id,
        requester_id: guest_id,
    });

    match event {
        DomainEvent::CommandFailed { .. } => {}
        e => panic!("Expected CommandFailed, got {:?}", e),
    }
}

#[test]
fn test_cancel_run() {
    let mut el = DomainEventLoop::new();
    let (lobby_id, _) = create_lobby(&mut el, "Test", "Alice");
    let run_id = start_run(&mut el, lobby_id);

    let event = el.handle_command(DomainCommand::CancelRun { lobby_id, run_id });
    match event {
        DomainEvent::RunEnded { status, .. } => assert_eq!(status, RunStatus::Cancelled),
        e => panic!("Expected RunEnded, got {:?}", e),
    }
    assert!(!el.get_lobby(&lobby_id).unwrap().has_active_run());
}

#[test]
fn command_on_unknown_lobby_fails_and_changes_nothing() {
    let mut el = DomainEventLoop::new();
    let event = el.handle_command(DomainCommand::JoinLobby { lobby_id: random_uuid(), guest_name: "Bob".to_string() });
    assert!(matches!(event, DomainEvent::CommandFailed { .. }));
    assert_eq!(el.lobby_count(), 0);
}

#[test]
fn create_lobby_with_given_id_and_fresh_values() {
    let mut el = DomainEventLoop::new();
    let fresh = Fresh { lobby_id: 7, participant_id: 8, run_id: 9, now: Timestamp::from_millis(42) };
    let event = el.handle_command_with(
        DomainCommand::CreateLobby { lobby_id: Some(5), lobby_name: "L".to_string(), host_name: "Ann".to_string() },
        fresh,
    );
    match event {
        DomainEvent::LobbyCreated { lobby } => {
            assert_eq!(lobby.id(), 5);
            assert_eq!(lobby.host_id(), 8);
            assert_eq!(lobby.host().unwrap().joined_at(), Timestamp::from_millis(42));
        }
        e => panic!("Expected LobbyCreated, got {:?}", e),
    }
    assert!(el.get_lobby(&5).is_some());
}

#[test]
fn test_event_clone() {
    let event = DomainEvent::GuestLeft { lobby_id: random_uuid(), participant_id: random_uuid() };
    let cloned = event.clone();
    assert_eq!(event, cloned);
}

#[test]
fn test_event_debug() {
    let event = DomainEvent::ParticipationModeChanged {
        lobby_id: random_uuid(),
        participant_id: random_uuid(),
        new_mode: ParticipationMode::Spectating,
    };
    let debug = format!("{:?}", event);
    assert!(debug.contains("ParticipationModeChanged"));
}

#[test]
fn test_command_clone() {
    let cmd = create("Test", "Alice");
    let cloned = cmd.clone();
    assert_eq!(cmd, cloned);
}

#[test]
fn command_queue_test_push_pop() {
    let mut queue = CommandQueue::new(10);
    let cmd = create("Test", "Alice");

    queue.push(cmd.clone()).unwrap();
    assert_eq!(queue.len(), 1);

    let popped = queue.pop().unwrap();
    assert_eq!(popped, cmd);
    assert!(queue.is_empty());
}

#[test]
fn command_queue_test_queue_full() {
    let mut queue = CommandQueue::new(2);
    queue.push(create("L1", "A")).unwrap();
    queue.push(create("L2", "B")).unwrap();

    let result = queue.push(create("L3", "C"));

    assert!(matches!(result, Err(QueueError::Full { max: 2 })));
}

#[test]
fn queue_error_message() {
    assert_eq!(QueueError::Full { max: 2 }.message(), "Queue is full (max size: 2)");
    assert_eq!(QueueError::Full { max: 100 }.message(), "Queue is full (max size: 100)");
}

#[test]
fn command_queue_test_drain() {
    let mut queue = CommandQueue::new(10);
    for i in 0..3 {
        queue.push(create(&format!("L{}", i), "Host")).unwrap();
    }

    let drained = queue.drain();
    assert_eq!(drained.len(), 3);
    assert!(queue.is_empty());
}

#[test]
fn command_queue_test_fifo_order() {
    let mut queue = CommandQueue::new(10);
    for i in 0..5 {
        queue.push(create(&format!("L{}", i), "Host")).unwrap();
    }

    for i in 0..5 {
        let cmd = queue.pop().unwrap();
        if let DomainCommand::CreateLobby { lobby_name, .. } = cmd {
            assert_eq!(lobby_name, format!("L{}", i));
        }
    }
    assert!(queue.pop().is_none());
}

#[test]
fn command_queue_test_default() {
    let queue = CommandQueue::default();
    assert_eq!(queue.capacity(), 100);
    assert!(queue.is_empty());
}

#[test]
fn test_submit_and_poll() {
    let mut loop_ = DomainLoop::new(10, 100);
    loop_.submit(create("Test Lobby", "Alice")).unwrap();

    let count = loop_.poll();
    assert_eq!(count, 1);

    let events = loop_.drain_events();
    assert_eq!(events.len(), 1);

    match &events[0] {
        DomainEvent::LobbyCreated { lobby } => {
            assert_eq!(lobby.name(), "Test Lobby");
        }
        _ => panic!("Expected LobbyCreated"),
    }
}

#[test]
fn test_batch_processing() {
    let mut loop_ = DomainLoop::new(3, 100);
    for i in 0..5 {
        loop_.submit(create(&format!("Lobby{}", i), "Host")).unwrap();
    }

    let count = loop_.poll();
    assert_eq!(count, 3);
    assert_eq!(loop_.drain_events().len(), 3);

    let count = loop_.poll();
    assert_eq!(count, 2);
    assert_eq!(loop_.drain_events().len(), 2);
}

#[test]
fn test_join_lobby() {
    let mut loop_ = DomainLoop::new(10, 100);
    loop_.submit(create("Test", "Alice")).unwrap();
    loop_.poll();
    let events = loop_.drain_events();

    let lobby_id = match &events[0] {
        DomainEvent::LobbyCreated { lobby } => lobby.id(),
        _ => panic!("Expected LobbyCreated"),
    };

    loop_.submit(DomainCommand::JoinLobby { lobby_id, guest_name: "Bob".to_string() }).unwrap();
    loop_.poll();

    let events = loop_.drain_events();
    match &events[0] {
        DomainEvent::GuestJoined { participant, .. } => {
            assert_eq!(participant.name(), "Bob");
        }
        _ => panic!("Expected GuestJoined"),
    }
}

#[test]
fn test_queue_overflow() {
    let mut loop_ = DomainLoop::new(10, 2);
    loop_.submit(create("L1", "A")).unwrap();
    loop_.submit(create("L2", "B")).unwrap();

    let result = loop_.submit(create("L3", "C"));

    assert!(result.is_err());
}

#[test]
fn refused_command_leaves_lobbies_unchanged() {
    let mut loop_ = DomainLoop::new(10, 10);
    loop_.submit(create("Test", "Alice")).unwrap();
    loop_.poll();
    let lobby_id = match &loop_.drain_events()[0] {
        DomainEvent::LobbyCreated { lobby } => lobby.id(),
        _ => panic!("Expected LobbyCreated"),
    };
    let before = loop_.event_loop().get_lobby(&lobby_id).unwrap().clone();
    loop_.submit(DomainCommand::JoinLobby { lobby_id, guest_name: String::new() }).unwrap();
    loop_.poll();
    assert!(matches!(loop_.drain_events()[0], DomainEvent::CommandFailed { .. }));
    assert_eq!(loop_.event_loop().get_lobby(&lobby_id).unwrap(), &before);
}

#[test]
fn join_with_taken_name_fails() {
    let mut el = DomainEventLoop::new();
    let (lobby_id, _) = create_lobby(&mut el, "Test", "Alice");
    let ev = el.handle_command(DomainCommand::JoinLobby { lobby_id, guest_name: "Alice".to_string() });
    assert!(matches!(ev, DomainEvent::CommandFailed { .. }));
    assert_eq!(el.get_lobby(&lobby_id).unwrap().participants().len(), 1);
}

#[test]
fn run_commands_find_the_run_by_its_id() {
    let mut el = DomainEventLoop::new();
    let (lobby_a, host_a) = create_lobby(&mut el, "A", "Alice");
    let (lobby_b, _) = create_lobby(&mut el, "B", "Bob");
    let run_id = start_run(&mut el, lobby_a);
    // The run is found by its id; the lobby named is the one cleared.
    let ev = el.handle_command(DomainCommand::SubmitResult {
        lobby_id: lobby_b,
        run_id,
        result: ActivityResult::new(run_id, host_a),
    });
    match ev {
        DomainEvent::RunEnded { lobby_id, status, .. } => {
            assert_eq!(lobby_id, lobby_b);
            assert_eq!(status, RunStatus::Completed);
        }
        e => panic!("Expected RunEnded, got {:?}", e),
    }
    assert!(!el.get_lobby(&lobby_b).unwrap().has_active_run());
    assert_eq!(el.get_run(&run_id).unwrap().status(), RunStatus::Completed);
}

#[test]
fn host_domain_creates_the_lobby() {
    let d = host_domain(10, 100, 7, "L".to_string(), "Ann".to_string()).unwrap();
    let lobby = d.event_loop().get_lobby(&7).unwrap();
    assert_eq!(lobby.name(), "L");
    assert_eq!(lobby.host().unwrap().name(), "Ann");
    assert!(host_domain(0, 100, 7, "L".to_string(), "Ann".to_string()).is_err());
    assert!(host_domain(10, 0, 7, "L".to_string(), "Ann".to_string()).is_err());
    assert!(host_domain(10, 100, 7, "L".to_string(), String::new()).is_err());
}
