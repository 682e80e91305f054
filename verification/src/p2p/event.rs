//! Events as they travel between peers: a lobby change with a sequence
//! number and a time.

use vstd::prelude::*;
use crate::ident::Uuid;
use crate::domain::participant::{Participant, ParticipantView, Timestamp};
use crate::domain::activity::{ActivityConfig, ActivityResult};
use crate::domain::activity_run::{ActivityRunId, RunStatus};

verus! {

/// Why the host role moved.
#[derive(Debug, Clone, Copy, PartialEq, Eq, Structural)]
pub enum DelegationReason {
    Manual,
    Timeout,
    Disconnect,
}

/// A change to a lobby as peers announce it.
#[derive(Debug, PartialEq)]
pub enum DomainEvent {
    LobbyCreated { lobby_id: Uuid, host_id: Uuid, name: String },
    GuestJoined { participant: Participant },
    GuestLeft { participant_id: Uuid },
    GuestKicked { participant_id: Uuid, kicked_by: Uuid },
    HostDelegated { from: Uuid, to: Uuid, reason: DelegationReason },
    ParticipationModeChanged { participant_id: Uuid, new_mode: String },
    ActivityQueued { config: ActivityConfig },
    /// The host announces a run together with who must submit, so that peers
    /// can follow its completion themselves.
    RunStarted { run_id: ActivityRunId, config: ActivityConfig, required_submitters: Vec<Uuid> },
    ResultSubmitted { run_id: ActivityRunId, result: ActivityResult },
    RunEnded { run_id: ActivityRunId, status: RunStatus, results: Vec<ActivityResult> },
}

/// An announced change with participants as views and texts and lists as sequences.
pub enum EventView {
    LobbyCreated { lobby_id: Uuid, host_id: Uuid, name: Seq<char> },
    GuestJoined { participant: ParticipantView },
    GuestLeft { participant_id: Uuid },
    GuestKicked { participant_id: Uuid, kicked_by: Uuid },
    HostDelegated { from: Uuid, to: Uuid, reason: DelegationReason },
    ParticipationModeChanged { participant_id: Uuid, new_mode: Seq<char> },
    ActivityQueued { config: ActivityConfig },
    RunStarted { run_id: ActivityRunId, config: ActivityConfig, required_submitters: Seq<Uuid> },
    ResultSubmitted { run_id: ActivityRunId, result: ActivityResult },
    RunEnded { run_id: ActivityRunId, status: RunStatus, results: Seq<ActivityResult> },
}

impl View for DomainEvent {
    type V = EventView;

    open spec fn view(&self) -> EventView {
        match self {
            DomainEvent::LobbyCreated { lobby_id, host_id, name } => EventView::LobbyCreated {
                lobby_id: *lobby_id,
                host_id: *host_id,
                name: name@,
            },
            DomainEvent::GuestJoined { participant } => EventView::GuestJoined {
                participant: participant@,
            },
            DomainEvent::GuestLeft { participant_id } => EventView::GuestLeft {
                participant_id: *participant_id,
            },
            DomainEvent::GuestKicked { participant_id, kicked_by } => EventView::GuestKicked {
                participant_id: *participant_id,
                kicked_by: *kicked_by,
            },
            DomainEvent::HostDelegated { from, to, reason } => EventView::HostDelegated {
                from: *from,
                to: *to,
                reason: *reason,
            },
            DomainEvent::ParticipationModeChanged { participant_id, new_mode } =>
                EventView::ParticipationModeChanged {
                participant_id: *participant_id,
                new_mode: new_mode@,
            },
            DomainEvent::ActivityQueued { config } => EventView::ActivityQueued { config: *config },
            DomainEvent::RunStarted { run_id, config, required_submitters } =>
                EventView::RunStarted {
                run_id: *run_id,
                config: *config,
                required_submitters: required_submitters@,
            },
            DomainEvent::ResultSubmitted { run_id, result } => EventView::ResultSubmitted {
                run_id: *run_id,
                result: *result,
            },
            DomainEvent::RunEnded { run_id, status, results } => EventView::RunEnded {
                run_id: *run_id,
                status: *status,
                results: results@,
            },
        }
    }
}

/// A copy of a list of ids.
pub fn copy_ids(v: &Vec<Uuid>) -> (r: Vec<Uuid>)
    ensures
        r@ == v@,
{
    let mut r: Vec<Uuid> = Vec::new();
    let mut i: usize = 0;
    while i < v.len()
        invariant
            i <= v@.len(),
            r@ == v@.take(i as int),
        decreases v.len() - i,
    {
        r.push(v[i]);
        proof {
            assert(v@.take(i + 1) =~= v@.take(i as int).push(v@[i as int]));
        }
        i += 1;
    }
    proof {
        assert(v@.take(v@.len() as int) =~= v@);
    }
    r
}

/// A copy of a list of results.
pub fn copy_results(v: &Vec<ActivityResult>) -> (r: Vec<ActivityResult>)
    ensures
        r@ == v@,
{
    let mut r: Vec<ActivityResult> = Vec::new();
    let mut i: usize = 0;
    while i < v.len()
        invariant
            i <= v@.len(),
            r@ == v@.take(i as int),
        decreases v.len() - i,
    {
        r.push(v[i].clone());
        proof {
            assert(v@.take(i + 1) =~= v@.take(i as int).push(v@[i as int]));
        }
        i += 1;
    }
    proof {
        assert(v@.take(v@.len() as int) =~= v@);
    }
    r
}

/// A copy of a byte string.
fn copy_bytes(v: &Vec<u8>) -> (r: Vec<u8>)
    ensures
        r@ == v@,
{
    let mut r: Vec<u8> = Vec::new();
    let mut i: usize = 0;
    while i < v.len()
        invariant
            i <= v@.len(),
            r@ == v@.take(i as int),
        decreases v.len() - i,
    {
        r.push(v[i]);
        proof {
            assert(v@.take(i + 1) =~= v@.take(i as int).push(v@[i as int]));
        }
        i += 1;
    }
    proof {
        assert(v@.take(v@.len() as int) =~= v@);
    }
    r
}

impl Clone for DomainEvent {
    fn clone(&self) -> (e: Self)
        ensures
            e@ == self@,
    {
        match self {
            DomainEvent::LobbyCreated { lobby_id, host_id, name } => DomainEvent::LobbyCreated {
                lobby_id: *lobby_id,
                host_id: *host_id,
                name: name.clone(),
            },
            DomainEvent::GuestJoined { participant } => DomainEvent::GuestJoined {
                participant: participant.clone(),
            },
            DomainEvent::GuestLeft { participant_id } => DomainEvent::GuestLeft {
                participant_id: *participant_id,
            },
            DomainEvent::GuestKicked { participant_id, kicked_by } => DomainEvent::GuestKicked {
                participant_id: *participant_id,
                kicked_by: *kicked_by,
            },
            DomainEvent::HostDelegated { from, to, reason } => DomainEvent::HostDelegated {
                from: *from,
                to: *to,
                reason: *reason,
            },
            DomainEvent::ParticipationModeChanged { participant_id, new_mode } =>
                DomainEvent::ParticipationModeChanged {
                participant_id: *participant_id,
                new_mode: new_mode.clone(),
            },
            DomainEvent::ActivityQueued { config } => DomainEvent::ActivityQueued {
                config: config.clone(),
            },
            DomainEvent::RunStarted { run_id, config, required_submitters } =>
                DomainEvent::RunStarted {
                run_id: *run_id,
                config: config.clone(),
                required_submitters: copy_ids(required_submitters),
            },
            DomainEvent::ResultSubmitted { run_id, result } => DomainEvent::ResultSubmitted {
                run_id: *run_id,
                result: result.clone(),
            },
            DomainEvent::RunEnded { run_id, status, results } => DomainEvent::RunEnded {
                run_id: *run_id,
                status: *status,
                results: copy_results(results),
            },
        }
    }
}

/// What an announced event is: its sequence number (0 when none is
/// assigned yet), lobby, time, change and signature.
pub struct LobbyEventView {
    pub sequence: u64,
    pub lobby_id: Uuid,
    pub timestamp: u64,
    pub event: EventView,
    pub signature: Option<Seq<u8>>,
}

/// An event with what ordering and synchronisation need.
#[derive(Debug, PartialEq)]
pub struct LobbyEvent {
    pub sequence: u64,
    pub lobby_id: Uuid,
    pub timestamp: Timestamp,
    pub event: DomainEvent,
    pub signature: Option<Vec<u8>>,
}

impl View for LobbyEvent {
    type V = LobbyEventView;

    open spec fn view(&self) -> LobbyEventView {
        LobbyEventView {
            sequence: self.sequence,
            lobby_id: self.lobby_id,
            timestamp: self.timestamp.millis(),
            event: self.event@,
            signature: match self.signature {
                Some(s) => Some(s@),
                None => None,
            },
        }
    }
}

impl Clone for LobbyEvent {
    fn clone(&self) -> (e: Self)
        ensures
            e@ == self@,
    {
        LobbyEvent {
            sequence: self.sequence,
            lobby_id: self.lobby_id,
            timestamp: self.timestamp,
            event: self.event.clone(),
            signature: match &self.signature {
                Some(s) => Some(copy_bytes(s)),
                None => None,
            },
        }
    }
}

impl LobbyEvent {
    /// An event with the given sequence number, stamped with the current time
    /// and unsigned.
    pub fn new(sequence: u64, lobby_id: Uuid, event: DomainEvent) -> (e: Self)
        ensures
            e@.sequence == sequence,
            e@.lobby_id == lobby_id,
            e@.event == event@,
            e@.signature is None,
    {
        LobbyEvent { sequence, lobby_id, timestamp: Timestamp::now(), event, signature: None }
    }

    /// An event with no sequence number yet (0), stamped with the current
    /// time and unsigned.
    pub fn without_sequence(lobby_id: Uuid, event: DomainEvent) -> (e: Self)
        ensures
            e@.sequence == 0,
            e@.lobby_id == lobby_id,
            e@.event == event@,
            e@.signature is None,
    {
        LobbyEvent { sequence: 0, lobby_id, timestamp: Timestamp::now(), event, signature: None }
    }
}

} // verus!
