use konnekt_session::domain::participant::{
    LobbyRole, Participant, ParticipantError, ParticipationMode, Timestamp,
};

#[test]
fn test_create_host() {
    let host = Participant::new_host("Alice".to_string()).unwrap();

    assert_eq!(host.name(), "Alice");
    assert_eq!(host.lobby_role(), LobbyRole::Host);
    assert_eq!(host.participation_mode(), ParticipationMode::Active);
    assert!(host.is_host());
    assert!(host.can_manage_lobby());
    assert!(host.can_submit_results());
}

#[test]
fn test_create_guest() {
    let guest = Participant::new_guest("Bob".to_string()).unwrap();

    assert_eq!(guest.name(), "Bob");
    assert_eq!(guest.lobby_role(), LobbyRole::Guest);
    assert_eq!(guest.participation_mode(), ParticipationMode::Active);
    assert!(!guest.is_host());
    assert!(!guest.can_manage_lobby());
    assert!(guest.can_submit_results());
}

#[test]
fn test_empty_name_validation() {
    let result = Participant::new_guest("".to_string());

    assert_eq!(result, Err(ParticipantError::EmptyName));
}

#[test]
fn test_name_length_validation() {
    let long_name = "a".repeat(51);
    let result = Participant::new_guest(long_name);

    assert_eq!(result, Err(ParticipantError::InvalidNameLength));
}

#[test]
fn name_of_fifty_bytes_is_accepted() {
    assert!(Participant::new_guest("a".repeat(50)).is_ok());
    // "é" takes two bytes: 26 of them are 52 bytes.
    assert_eq!(
        Participant::new_guest("é".repeat(26)),
        Err(ParticipantError::InvalidNameLength)
    );
}

#[test]
fn test_toggle_participation_mode_when_no_activity() {
    let mut guest = Participant::new_guest("Carol".to_string()).unwrap();
    assert_eq!(guest.participation_mode(), ParticipationMode::Active);

    let result = guest.toggle_participation_mode(false);
    assert!(result.is_ok());
    assert_eq!(guest.participation_mode(), ParticipationMode::Spectating);
    assert!(!guest.can_submit_results());

    let result = guest.toggle_participation_mode(false);
    assert!(result.is_ok());
    assert_eq!(guest.participation_mode(), ParticipationMode::Active);
    assert!(guest.can_submit_results());
}

#[test]
fn test_cannot_toggle_during_activity() {
    let mut guest = Participant::new_guest("Carol".to_string()).unwrap();

    let result = guest.toggle_participation_mode(true);

    assert_eq!(result, Err(ParticipantError::CannotToggleDuringActivity));
    assert_eq!(guest.participation_mode(), ParticipationMode::Active);
}

#[test]
fn test_force_participation_mode() {
    let mut guest = Participant::new_guest("Dave".to_string()).unwrap();
    assert_eq!(guest.participation_mode(), ParticipationMode::Active);

    guest.force_participation_mode(ParticipationMode::Spectating);

    assert_eq!(guest.participation_mode(), ParticipationMode::Spectating);
    assert!(!guest.can_submit_results());
}

#[test]
fn test_host_can_be_spectating() {
    let mut host = Participant::new_host("Alice".to_string()).unwrap();

    host.toggle_participation_mode(false).unwrap();

    assert_eq!(host.participation_mode(), ParticipationMode::Spectating);
    assert!(!host.can_submit_results());
    assert!(host.can_manage_lobby());
}

#[test]
fn test_promote_to_host() {
    let mut guest = Participant::new_guest("Bob".to_string()).unwrap();
    assert!(!guest.is_host());

    guest.promote_to_host();

    assert!(guest.is_host());
    assert!(guest.can_manage_lobby());
    assert_eq!(guest.lobby_role(), LobbyRole::Host);
}

#[test]
fn test_demote_to_guest() {
    let mut host = Participant::new_host("Alice".to_string()).unwrap();
    assert!(host.is_host());

    host.demote_to_guest();

    assert!(!host.is_host());
    assert!(!host.can_manage_lobby());
    assert_eq!(host.lobby_role(), LobbyRole::Guest);
}

#[test]
fn test_unique_ids() {
    let guest1 = Participant::new_guest("Alice".to_string()).unwrap();
    let guest2 = Participant::new_guest("Alice".to_string()).unwrap();

    assert_ne!(guest1.id(), guest2.id());
}

#[test]
fn test_display_lobby_role() {
    assert_eq!(LobbyRole::Host.to_string(), "Host");
    assert_eq!(LobbyRole::Guest.to_string(), "Guest");
}

#[test]
fn test_display_participation_mode() {
    assert_eq!(ParticipationMode::Active.to_string(), "Active");
    assert_eq!(ParticipationMode::Spectating.to_string(), "Spectating");
}

#[test]
fn test_participation_mode_default() {
    assert_eq!(ParticipationMode::default(), ParticipationMode::Active);
}

#[test]
fn test_timestamp_ordering() {
    let t1 = Timestamp::from_millis(100);
    let t2 = Timestamp::from_millis(200);
    let t3 = Timestamp::from_millis(200);

    assert!(t1 < t2);
    assert!(t2 > t1);
    assert_eq!(t2, t3);
}

#[test]
fn test_timestamp_display() {
    let timestamp = Timestamp::from_millis(12345);
    assert_eq!(timestamp.to_string(), "12345ms");
}

#[test]
fn timestamp_round_trips_millis() {
    assert_eq!(Timestamp::from_millis(0).as_millis(), 0);
    assert_eq!(Timestamp::from_millis(u64::MAX).as_millis(), u64::MAX);
    assert_eq!(Timestamp::from_millis(0).to_string(), "0ms");
}

#[test]
fn test_deterministic_election_by_timestamp() {
    let alice =
        Participant::with_timestamp("Alice".to_string(), LobbyRole::Guest, Timestamp::from_millis(100))
            .unwrap();
    let bob =
        Participant::with_timestamp("Bob".to_string(), LobbyRole::Guest, Timestamp::from_millis(200))
            .unwrap();
    let carol =
        Participant::with_timestamp("Carol".to_string(), LobbyRole::Guest, Timestamp::from_millis(150))
            .unwrap();

    let mut participants = vec![bob.clone(), carol.clone(), alice.clone()];

    participants.sort_by_key(|p| p.joined_at());

    assert_eq!(participants[0].name(), "Alice");
    assert_eq!(participants[1].name(), "Carol");
    assert_eq!(participants[2].name(), "Bob");
}

#[test]
fn participant_error_messages() {
    assert_eq!(ParticipantError::EmptyName.message(), "Name cannot be empty");
    assert!(!ParticipantError::InvalidNameLength.message().is_empty());
    assert!(!ParticipantError::CannotToggleDuringActivity.message().is_empty());
}

#[test]
fn toggle_twice_restores_mode() {
    let mut p = Participant::new_guest("Eve".to_string()).unwrap();
    let before = p.participation_mode();
    p.toggle_participation_mode(false).unwrap();
    p.toggle_participation_mode(false).unwrap();
    assert_eq!(p.participation_mode(), before);
}
