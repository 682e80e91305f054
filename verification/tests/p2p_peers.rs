use konnekt_session::ident::Uuid;
use konnekt_session::p2p::event::{DomainEvent, LobbyEvent};
use konnekt_session::p2p::event_log::EventLog;
use konnekt_session::p2p::peer::PeerId;
use konnekt_session::p2p::peer_participant_map::PeerParticipantMap;
use konnekt_session::p2p::peer_state::{ConnectionStatus, PeerRegistry, PeerState};

fn random_uuid() -> u128 {
    uuid::Uuid::new_v4().as_u128()
}

fn create_test_event(lobby_id: Uuid, sequence: u64) -> LobbyEvent {
    LobbyEvent::new(sequence, lobby_id, DomainEvent::GuestLeft { participant_id: random_uuid() })
}

fn create_peer() -> PeerId {
    PeerId::new(random_uuid())
}

#[test]
fn test_append_assigns_sequence() {
    let mut log = EventLog::new();
    let lobby_id = random_uuid();

    let event = LobbyEvent::without_sequence(
        lobby_id,
        DomainEvent::LobbyCreated { lobby_id, host_id: random_uuid(), name: "Test".to_string() },
    );

    let seq = log.append(event);

    assert_eq!(seq, 1);
    assert_eq!(log.next_sequence(), 2);
    assert_eq!(log.highest_sequence(), 1);
    assert_eq!(log.get(1).unwrap().sequence, 1);
}

#[test]
fn test_add_event_tracks_highest_seen() {
    let mut log = EventLog::new();
    let lobby_id = random_uuid();

    log.add_event(create_test_event(lobby_id, 5));
    assert_eq!(log.highest_sequence(), 5);

    log.add_event(create_test_event(lobby_id, 3));
    assert_eq!(log.highest_sequence(), 5);

    log.add_event(create_test_event(lobby_id, 10));
    assert_eq!(log.highest_sequence(), 10);
}

#[test]
fn test_get_since() {
    let mut log = EventLog::new();
    let lobby_id = random_uuid();

    for seq in 1..=5 {
        log.add_event(create_test_event(lobby_id, seq));
    }

    let since_3 = log.get_since(3);
    assert_eq!(since_3.len(), 2);
    assert_eq!(since_3[0].sequence, 4);
    assert_eq!(since_3[1].sequence, 5);
}

#[test]
fn test_get_last() {
    let mut log = EventLog::new();
    let lobby_id = random_uuid();

    for seq in 1..=10 {
        log.add_event(create_test_event(lobby_id, seq));
    }

    let last_3 = log.get_last(3);
    assert_eq!(last_3.len(), 3);
    assert_eq!(last_3[0].sequence, 8);
    assert_eq!(last_3[1].sequence, 9);
    assert_eq!(last_3[2].sequence, 10);
    assert_eq!(log.get_last(50).len(), 10);
}

#[test]
fn test_bounded_buffer_evicts_oldest() {
    let mut log = EventLog::with_capacity(3);
    let lobby_id = random_uuid();

    for seq in 1..=5 {
        log.add_event(create_test_event(lobby_id, seq));
    }

    assert_eq!(log.len(), 3);
    assert!(log.get(1).is_none());
    assert!(log.get(2).is_none());
    assert!(log.get(3).is_some());
    assert!(log.get(4).is_some());
    assert!(log.get(5).is_some());
}

#[test]
fn test_detect_gaps() {
    let mut log = EventLog::new();
    let lobby_id = random_uuid();

    log.add_event(create_test_event(lobby_id, 1));
    log.add_event(create_test_event(lobby_id, 2));
    log.add_event(create_test_event(lobby_id, 4));
    log.add_event(create_test_event(lobby_id, 7));

    let gaps = log.detect_gaps();
    assert_eq!(gaps, vec![3, 5, 6]);
}

#[test]
fn test_detect_gaps_empty_log() {
    let log = EventLog::new();
    let gaps = log.detect_gaps();
    assert!(gaps.is_empty());
}

#[test]
fn test_get_by_sequence() {
    let mut log = EventLog::new();
    let lobby_id = random_uuid();

    log.add_event(create_test_event(lobby_id, 5));
    log.add_event(create_test_event(lobby_id, 10));

    assert!(log.get(5).is_some());
    assert!(log.get(7).is_none());
    assert!(log.get(10).is_some());
}

#[test]
fn clear_empties_the_log() {
    let mut log = EventLog::new();
    log.add_event(create_test_event(random_uuid(), 1));
    log.clear();
    assert!(log.is_empty());
    assert_eq!(log.all_events().len(), 0);
}

#[test]
fn test_register_mapping() {
    let mut map = PeerParticipantMap::new();
    let peer = create_peer();
    let participant = random_uuid();

    map.register(peer, participant);

    assert_eq!(map.get_participant(&peer), Some(participant));
    assert_eq!(map.get_peer(&participant), Some(peer));
    assert_eq!(map.len(), 1);
}

#[test]
fn test_remove_by_peer() {
    let mut map = PeerParticipantMap::new();
    let peer = create_peer();
    let participant = random_uuid();

    map.register(peer, participant);
    let removed = map.remove_by_peer(&peer);

    assert_eq!(removed, Some(participant));
    assert_eq!(map.get_participant(&peer), None);
    assert_eq!(map.get_peer(&participant), None);
    assert!(map.is_empty());
}

#[test]
fn test_remove_by_participant() {
    let mut map = PeerParticipantMap::new();
    let peer = create_peer();
    let participant = random_uuid();

    map.register(peer, participant);
    let removed = map.remove_by_participant(&participant);

    assert_eq!(removed, Some(peer));
    assert_eq!(map.get_participant(&peer), None);
    assert_eq!(map.get_peer(&participant), None);
    assert!(map.is_empty());
}

#[test]
fn test_remove_nonexistent_peer() {
    let mut map = PeerParticipantMap::new();
    let peer = create_peer();

    let removed = map.remove_by_peer(&peer);
    assert_eq!(removed, None);
}

#[test]
fn test_remove_nonexistent_participant() {
    let mut map = PeerParticipantMap::new();
    let participant = random_uuid();

    let removed = map.remove_by_participant(&participant);
    assert_eq!(removed, None);
}

#[test]
fn test_one_to_one_enforcement_peer_reuse() {
    let mut map = PeerParticipantMap::new();
    let peer = create_peer();
    let participant1 = random_uuid();
    let participant2 = random_uuid();

    map.register(peer, participant1);
    assert_eq!(map.len(), 1);

    map.register(peer, participant2);

    assert_eq!(map.get_participant(&peer), Some(participant2));
    assert_eq!(map.get_peer(&participant1), None);
    assert_eq!(map.get_peer(&participant2), Some(peer));
    assert_eq!(map.len(), 1);
}

#[test]
fn test_one_to_one_enforcement_participant_reuse() {
    let mut map = PeerParticipantMap::new();
    let peer1 = create_peer();
    let peer2 = create_peer();
    let participant = random_uuid();

    map.register(peer1, participant);
    assert_eq!(map.len(), 1);

    map.register(peer2, participant);

    assert_eq!(map.get_participant(&peer1), None);
    assert_eq!(map.get_participant(&peer2), Some(participant));
    assert_eq!(map.get_peer(&participant), Some(peer2));
    assert_eq!(map.len(), 1);
}

#[test]
fn test_multiple_independent_mappings() {
    let mut map = PeerParticipantMap::new();
    let peer1 = create_peer();
    let peer2 = create_peer();
    let participant1 = random_uuid();
    let participant2 = random_uuid();

    map.register(peer1, participant1);
    map.register(peer2, participant2);

    assert_eq!(map.get_participant(&peer1), Some(participant1));
    assert_eq!(map.get_participant(&peer2), Some(participant2));
    assert_eq!(map.get_peer(&participant1), Some(peer1));
    assert_eq!(map.get_peer(&participant2), Some(peer2));
    assert_eq!(map.len(), 2);
}

#[test]
fn test_contains_peer() {
    let mut map = PeerParticipantMap::new();
    let peer = create_peer();
    let participant = random_uuid();

    assert!(!map.contains_peer(&peer));

    map.register(peer, participant);
    assert!(map.contains_peer(&peer));

    map.remove_by_peer(&peer);
    assert!(!map.contains_peer(&peer));
}

#[test]
fn test_contains_participant() {
    let mut map = PeerParticipantMap::new();
    let peer = create_peer();
    let participant = random_uuid();

    assert!(!map.contains_participant(&participant));

    map.register(peer, participant);
    assert!(map.contains_participant(&participant));

    map.remove_by_participant(&participant);
    assert!(!map.contains_participant(&participant));
}

#[test]
fn test_all_peers() {
    let mut map = PeerParticipantMap::new();
    let peer1 = create_peer();
    let peer2 = create_peer();

    map.register(peer1, random_uuid());
    map.register(peer2, random_uuid());

    let peers: Vec<PeerId> = map.all_peers();
    assert_eq!(peers.len(), 2);
    assert!(peers.contains(&peer1));
    assert!(peers.contains(&peer2));
}

#[test]
fn test_all_participants() {
    let mut map = PeerParticipantMap::new();
    let participant1 = random_uuid();
    let participant2 = random_uuid();

    map.register(create_peer(), participant1);
    map.register(create_peer(), participant2);

    let participants: Vec<Uuid> = map.all_participants();
    assert_eq!(participants.len(), 2);
    assert!(participants.contains(&participant1));
    assert!(participants.contains(&participant2));
}

#[test]
fn test_clear() {
    let mut map = PeerParticipantMap::new();
    map.register(create_peer(), random_uuid());
    map.register(create_peer(), random_uuid());

    assert_eq!(map.len(), 2);

    map.clear();

    assert_eq!(map.len(), 0);
    assert!(map.is_empty());
}

#[test]
fn test_bidirectional_invariant() {
    let mut map = PeerParticipantMap::new();

    for _ in 0..10 {
        map.register(create_peer(), random_uuid());
    }

    for peer in map.all_peers() {
        let participant = map.get_participant(&peer).unwrap();
        assert_eq!(map.get_peer(&participant), Some(peer));
    }

    for participant in map.all_participants() {
        let peer = map.get_peer(&participant).unwrap();
        assert_eq!(map.get_participant(&peer), Some(participant));
    }
}

#[test]
fn test_connection_status() {
    let mut state = PeerState::new();
    assert_eq!(state.status, ConnectionStatus::Connected);

    state.mark_disconnected();
    assert!(state.is_disconnected());
    assert!(!state.is_timed_out());
}

#[test]
fn test_grace_period_expiry() {
    let mut state = PeerState::new();
    state.mark_disconnected();

    let expired = state.check_grace_period(30_000);
    assert!(!expired);
    assert!(!state.is_timed_out());

    let expired = state.check_grace_period(0);
    assert!(expired);
    assert!(state.is_timed_out());
}

#[test]
fn grace_period_at_given_times() {
    let mut state = PeerState::new_at(1000);
    state.mark_disconnected_at(2000);
    assert_eq!(state.status, ConnectionStatus::Disconnected { since: 2000 });
    assert!(!state.check_grace_period_at(2999, 1000));
    assert!(state.check_grace_period_at(3000, 1000));
    assert_eq!(state.status, ConnectionStatus::TimedOut);
    // A timed-out peer stays timed out and does not expire twice.
    assert!(!state.check_grace_period_at(9000, 1000));
}

#[test]
fn connected_peer_never_expires() {
    let mut state = PeerState::new_at(0);
    assert!(!state.check_grace_period_at(u64::MAX, 0));
    assert_eq!(state.status, ConnectionStatus::Connected);
}

#[test]
fn test_peer_registry_disconnection() {
    let mut registry = PeerRegistry::new();
    let peer_id = create_peer();

    registry.add_peer(peer_id);
    assert_eq!(registry.peer_count(), 1);

    registry.mark_peer_disconnected(&peer_id);
    assert_eq!(registry.peer_count(), 1);

    registry.get_peer_mut(&peer_id).unwrap().check_grace_period(0);
    assert_eq!(registry.peer_count(), 0);
}

#[test]
fn test_find_host_excludes_timed_out() {
    let mut registry = PeerRegistry::new();
    let host_peer = create_peer();

    registry.add_peer(host_peer);
    registry
        .get_peer_mut(&host_peer)
        .unwrap()
        .set_participant_info(random_uuid(), "Host".to_string(), true);

    assert!(registry.find_host().is_some());

    registry.mark_peer_disconnected(&host_peer);
    registry.get_peer_mut(&host_peer).unwrap().check_grace_period(0);

    assert!(registry.find_host().is_none());
}

#[test]
fn registry_grace_checks_report_expired_peers() {
    let mut registry = PeerRegistry::with_grace_period(100);
    let a = create_peer();
    let b = create_peer();
    registry.add_peer_at(a, 0);
    registry.add_peer_at(b, 0);
    registry.mark_peer_disconnected_at(&a, 10);
    assert!(registry.check_grace_periods_at(50).is_empty());
    let expired = registry.check_grace_periods_at(110);
    assert_eq!(expired, vec![a]);
    assert_eq!(registry.peer_count(), 1);
    assert!(registry.remove_peer(&a).is_some());
    assert!(registry.get_peer(&a).is_none());
}

#[test]
fn registry_finds_participants_and_hosts() {
    let mut registry = PeerRegistry::new();
    let p = create_peer();
    let pid = random_uuid();
    registry.add_peer(p);
    registry.get_peer_mut(&p).unwrap().set_participant_info(pid, "Ann".to_string(), false);
    assert_eq!(registry.find_by_participant_id(pid), Some(p));
    assert_eq!(registry.find_by_participant_id(random_uuid()), None);
    assert!(!registry.is_peer_host(&p));
    assert!(!registry.is_peer_host(&create_peer()));
    assert_eq!(registry.all_peers().len(), 1);
}
