use konnekt_session::domain::activity::ActivityConfig;
use konnekt_session::domain::lobby::{Lobby, LobbyError};
use konnekt_session::domain::participant::{LobbyRole, Participant, ParticipantError, ParticipationMode, Timestamp};

fn random_uuid() -> u128 {
    uuid::Uuid::new_v4().as_u128()
}

fn empty_object() -> serde_json::Value {
    serde_json::Value::Object(serde_json::Map::new())
}

#[test]
fn lobby_test_create_lobby() {
    let host = Participant::new_host("Alice".to_string()).unwrap();
    let lobby = Lobby::new("Test Lobby".to_string(), host.clone()).unwrap();
    assert_eq!(lobby.name(), "Test Lobby");
    assert_eq!(lobby.host_id(), host.id());
    assert_eq!(lobby.participants().len(), 1);
    assert!(!lobby.has_active_run());
}

#[test]
fn test_cannot_create_lobby_with_guest() {
    let guest = Participant::new_guest("Bob".to_string()).unwrap();
    assert_eq!(Lobby::new("Test".to_string(), guest), Err(LobbyError::NoHost));
}

#[test]
fn test_add_guest() {
    let host = Participant::new_host("Alice".to_string()).unwrap();
    let mut lobby = Lobby::new("Test".to_string(), host).unwrap();
    let guest = Participant::new_guest("Bob".to_string()).unwrap();
    lobby.add_guest(guest.clone()).unwrap();
    assert_eq!(lobby.participants().len(), 2);
}

#[test]
fn test_kick_guest() {
    let host = Participant::new_host("Alice".to_string()).unwrap();
    let host_id = host.id();
    let mut lobby = Lobby::new("Test".to_string(), host).unwrap();
    let guest = Participant::new_guest("Bob".to_string()).unwrap();
    let guest_id = guest.id();
    lobby.add_guest(guest).unwrap();
    lobby.kick_guest(guest_id, host_id).unwrap();
    assert_eq!(lobby.participants().len(), 1);
}

#[test]
fn kick_host_and_permission_errors() {
    let host = Participant::new_host("Alice".to_string()).unwrap();
    let host_id = host.id();
    let mut lobby = Lobby::new("Test".to_string(), host).unwrap();
    let guest = Participant::new_guest("Bob".to_string()).unwrap();
    let guest_id = guest.id();
    lobby.add_guest(guest).unwrap();
    assert_eq!(lobby.kick_guest(host_id, host_id).unwrap_err(), LobbyError::CannotKickHost);
    assert_eq!(lobby.kick_guest(host_id, guest_id).unwrap_err(), LobbyError::PermissionDenied);
    let stranger = random_uuid();
    assert_eq!(
        lobby.kick_guest(stranger, host_id).unwrap_err(),
        LobbyError::ParticipantNotFound(stranger)
    );
    assert_eq!(lobby.participants().len(), 2);
}

#[test]
fn test_manual_delegate_host() {
    let host = Participant::new_host("Alice".to_string()).unwrap();
    let old_host_id = host.id();
    let mut lobby = Lobby::new("Test".to_string(), host).unwrap();
    let guest = Participant::new_guest("Bob".to_string()).unwrap();
    let guest_id = guest.id();
    lobby.add_guest(guest).unwrap();
    lobby.delegate_host(guest_id).unwrap();
    assert_eq!(lobby.host_id(), guest_id);
    assert!(!lobby.participants().get(&old_host_id).unwrap().is_host());
}

#[test]
fn delegate_to_host_is_refused() {
    let host = Participant::new_host("Alice".to_string()).unwrap();
    let host_id = host.id();
    let mut lobby = Lobby::new("Test".to_string(), host).unwrap();
    assert_eq!(lobby.delegate_host(host_id), Err(LobbyError::CannotDelegateToNonGuest));
}

#[test]
fn test_auto_delegate_to_oldest_guest() {
    let host = Participant::new_host("Alice".to_string()).unwrap();
    let mut lobby = Lobby::new("Test".to_string(), host).unwrap();

    let bob =
        Participant::with_timestamp("Bob".to_string(), LobbyRole::Guest, Timestamp::from_millis(100))
            .unwrap();
    let bob_id = bob.id();
    let carol =
        Participant::with_timestamp("Carol".to_string(), LobbyRole::Guest, Timestamp::from_millis(200))
            .unwrap();

    lobby.add_guest(bob).unwrap();
    lobby.add_guest(carol).unwrap();

    let new_host_id = lobby.auto_delegate_host().unwrap();
    assert_eq!(new_host_id, bob_id);
}

#[test]
fn auto_delegate_without_guests_is_refused() {
    let host = Participant::new_host("Alice".to_string()).unwrap();
    let mut lobby = Lobby::new("Test".to_string(), host).unwrap();
    assert_eq!(lobby.auto_delegate_host(), Err(LobbyError::EmptyLobby));
}

#[test]
fn test_active_participant_ids_snapshot() {
    let host = Participant::new_host("Alice".to_string()).unwrap();
    let host_id = host.id();
    let mut lobby = Lobby::new("Test".to_string(), host).unwrap();
    let guest = Participant::new_guest("Bob".to_string()).unwrap();
    let guest_id = guest.id();
    lobby.add_guest(guest).unwrap();

    let snapshot = lobby.active_participant_ids();
    assert!(snapshot.contains(&host_id));
    assert!(snapshot.contains(&guest_id));
    assert_eq!(snapshot.len(), 2);
}

#[test]
fn test_cannot_toggle_during_active_run() {
    let host = Participant::new_host("Alice".to_string()).unwrap();
    let host_id = host.id();
    let mut lobby = Lobby::new("Test".to_string(), host).unwrap();
    lobby.set_active_run(random_uuid()).unwrap();

    let result = lobby.toggle_participation_mode(host_id, host_id);
    assert!(matches!(
        result,
        Err(LobbyError::ParticipantError(ParticipantError::CannotToggleDuringActivity))
    ));
}

#[test]
fn test_dequeue_activity() {
    let host = Participant::new_host("Alice".to_string()).unwrap();
    let mut lobby = Lobby::new("Test".to_string(), host).unwrap();
    let config = ActivityConfig::new("quiz".to_string(), "Q1".to_string(), empty_object());
    let config_id = config.id;
    lobby.queue_activity(config).unwrap();

    let dequeued = lobby.dequeue_next_activity().unwrap();
    assert_eq!(dequeued.id, config_id);
    assert!(lobby.activity_queue().is_empty());
}

#[test]
fn dequeue_from_empty_queue_is_refused() {
    let host = Participant::new_host("Alice".to_string()).unwrap();
    let mut lobby = Lobby::new("Test".to_string(), host).unwrap();
    assert_eq!(lobby.dequeue_next_activity(), Err(LobbyError::EmptyQueue));
}

#[test]
fn queue_same_activity_twice_is_refused() {
    let host = Participant::new_host("Alice".to_string()).unwrap();
    let mut lobby = Lobby::new("Test".to_string(), host).unwrap();
    let config = ActivityConfig::new("quiz".to_string(), "Q1".to_string(), empty_object());
    let id = config.id;
    lobby.queue_activity(config.clone()).unwrap();
    assert_eq!(lobby.queue_activity(config), Err(LobbyError::ActivityAlreadyExists(id)));
    lobby.remove_queued_activity(id).unwrap();
    assert_eq!(lobby.remove_queued_activity(id), Err(LobbyError::ActivityNotFound(id)));
}

#[test]
fn test_cannot_dequeue_during_active_run() {
    let host = Participant::new_host("Alice".to_string()).unwrap();
    let mut lobby = Lobby::new("Test".to_string(), host).unwrap();
    let config = ActivityConfig::new("quiz".to_string(), "Q1".to_string(), empty_object());
    lobby.queue_activity(config).unwrap();
    lobby.set_active_run(random_uuid()).unwrap();

    assert_eq!(lobby.dequeue_next_activity(), Err(LobbyError::RunAlreadyInProgress));
}

#[test]
fn test_clear_active_run() {
    let host = Participant::new_host("Alice".to_string()).unwrap();
    let mut lobby = Lobby::new("Test".to_string(), host).unwrap();
    lobby.set_active_run(random_uuid()).unwrap();
    assert!(lobby.has_active_run());
    lobby.clear_active_run();
    assert!(!lobby.has_active_run());
}

#[test]
fn second_run_is_refused() {
    let host = Participant::new_host("Alice".to_string()).unwrap();
    let mut lobby = Lobby::new("Test".to_string(), host).unwrap();
    lobby.set_active_run(random_uuid()).unwrap();
    assert_eq!(lobby.set_active_run(random_uuid()), Err(LobbyError::RunAlreadyInProgress));
}

#[test]
fn lobby_has_one_host_after_changes() {
    let host = Participant::new_host("Alice".to_string()).unwrap();
    let mut lobby = Lobby::new("Test".to_string(), host).unwrap();
    let bob = Participant::new_guest("Bob".to_string()).unwrap();
    let bob_id = bob.id();
    lobby.add_guest(bob).unwrap();
    lobby.add_guest(Participant::new_guest("Carol".to_string()).unwrap()).unwrap();
    lobby.delegate_host(bob_id).unwrap();
    let hosts = lobby.participants().values().filter(|p| p.is_host()).count();
    assert_eq!(hosts, 1);
    assert_eq!(lobby.host().unwrap().id(), bob_id);
}

#[test]
fn lobby_error_messages() {
    assert_eq!(LobbyError::NoHost.message(), "Lobby must have exactly one host");
    assert_eq!(LobbyError::EmptyQueue.message(), "Activity queue is empty");
    assert_eq!(
        LobbyError::ParticipantError(ParticipantError::EmptyName).message(),
        "Participant error: Name cannot be empty"
    );
    let id = 0x550e8400e29b41d4a716446655440000u128;
    assert_eq!(
        LobbyError::ParticipantNotFound(id).message(),
        "Participant not found: 550e8400-e29b-41d4-a716-446655440000"
    );
}

#[test]
fn guest_with_taken_name_is_refused() {
    let host = Participant::new_host("Alice".to_string()).unwrap();
    let mut lobby = Lobby::new("Test".to_string(), host).unwrap();
    let twin = Participant::new_guest("Alice".to_string()).unwrap();
    assert_eq!(lobby.add_guest(twin), Err(LobbyError::NameTaken));
    let bob = Participant::new_guest("Bob".to_string()).unwrap();
    lobby.add_guest(bob.clone()).unwrap();
    assert_eq!(lobby.add_guest(Participant::new_guest("Bob".to_string()).unwrap()), Err(LobbyError::NameTaken));
    // The same guest again changes nothing.
    assert_eq!(lobby.add_guest(bob), Ok(()));
    assert_eq!(lobby.participants().len(), 2);
    assert_eq!(LobbyError::NameTaken.message(), "Name already taken in this lobby");
}

#[test]
fn guest_under_host_id_is_refused() {
    let host = Participant::new_host("Alice".to_string()).unwrap();
    let host_id = host.id();
    let mut lobby = Lobby::new("Test".to_string(), host).unwrap();
    let impostor =
        Participant::from_parts(host_id, "Mallory".to_string(), LobbyRole::Guest, ParticipationMode::Active, Timestamp::from_millis(1));
    assert_eq!(lobby.add_guest(impostor), Err(LobbyError::CannotReplaceHost));
    assert!(lobby.participants().get(&host_id).unwrap().is_host());
    assert_eq!(LobbyError::CannotReplaceHost.message(), "Cannot replace the host");
}
