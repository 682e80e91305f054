//! Events that the event loop answers commands with.

use vstd::prelude::*;
use crate::ident::Uuid;
use crate::domain::participant::{Participant, ParticipantView, ParticipationMode};
use crate::domain::activity::{ActivityConfig, ActivityResult};
use crate::domain::activity_run::{ActivityRunId, RunStatus};
use crate::domain::lobby::{Lobby, LobbyView};

verus! {

/// What happened after a command: the change it made, or why it failed.
#[derive(Debug, Clone, PartialEq)]
pub enum DomainEvent {
    LobbyCreated { lobby: Lobby },
    GuestJoined { lobby_id: Uuid, participant: Participant },
    GuestLeft { lobby_id: Uuid, participant_id: Uuid },
    GuestKicked { lobby_id: Uuid, participant_id: Uuid, kicked_by: Uuid },
    ParticipationModeChanged { lobby_id: Uuid, participant_id: Uuid, new_mode: ParticipationMode },
    HostDelegated { lobby_id: Uuid, from: Uuid, to: Uuid },
    ActivityQueued { lobby_id: Uuid, config: ActivityConfig },
    RunStarted { lobby_id: Uuid, run_id: ActivityRunId, config: ActivityConfig },
    ResultSubmitted { lobby_id: Uuid, run_id: ActivityRunId, result: ActivityResult },
    SubmitterRemoved { lobby_id: Uuid, run_id: ActivityRunId, participant_id: Uuid },
    RunEnded {
        lobby_id: Uuid,
        run_id: ActivityRunId,
        status: RunStatus,
        results: Vec<ActivityResult>,
    },
    /// The command named `command` was refused for `reason`.
    CommandFailed { command: String, reason: String },
}

/// An event with its lobby and participants as views.
pub enum DomainEventView {
    LobbyCreated { lobby: LobbyView },
    GuestJoined { lobby_id: Uuid, participant: ParticipantView },
    GuestLeft { lobby_id: Uuid, participant_id: Uuid },
    GuestKicked { lobby_id: Uuid, participant_id: Uuid, kicked_by: Uuid },
    ParticipationModeChanged { lobby_id: Uuid, participant_id: Uuid, new_mode: ParticipationMode },
    HostDelegated { lobby_id: Uuid, from: Uuid, to: Uuid },
    ActivityQueued { lobby_id: Uuid, config: ActivityConfig },
    RunStarted { lobby_id: Uuid, run_id: ActivityRunId, config: ActivityConfig },
    ResultSubmitted { lobby_id: Uuid, run_id: ActivityRunId, result: ActivityResult },
    SubmitterRemoved { lobby_id: Uuid, run_id: ActivityRunId, participant_id: Uuid },
    RunEnded {
        lobby_id: Uuid,
        run_id: ActivityRunId,
        status: RunStatus,
        results: Seq<ActivityResult>,
    },
    CommandFailed { command: Seq<char>, reason: Seq<char> },
}

impl View for DomainEvent {
    type V = DomainEventView;

    open spec fn view(&self) -> DomainEventView {
        match self {
            DomainEvent::LobbyCreated { lobby } => DomainEventView::LobbyCreated { lobby: lobby@ },
            DomainEvent::GuestJoined { lobby_id, participant } => DomainEventView::GuestJoined {
                lobby_id: *lobby_id,
                participant: participant@,
            },
            DomainEvent::GuestLeft { lobby_id, participant_id } => DomainEventView::GuestLeft {
                lobby_id: *lobby_id,
                participant_id: *participant_id,
            },
            DomainEvent::GuestKicked { lobby_id, participant_id, kicked_by } =>
                DomainEventView::GuestKicked {
                lobby_id: *lobby_id,
                participant_id: *participant_id,
                kicked_by: *kicked_by,
            },
            DomainEvent::ParticipationModeChanged { lobby_id, participant_id, new_mode } =>
                DomainEventView::ParticipationModeChanged {
                lobby_id: *lobby_id,
                participant_id: *participant_id,
                new_mode: *new_mode,
            },
            DomainEvent::HostDelegated { lobby_id, from, to } => DomainEventView::HostDelegated {
                lobby_id: *lobby_id,
                from: *from,
                to: *to,
            },
            DomainEvent::ActivityQueued { lobby_id, config } => DomainEventView::ActivityQueued {
                lobby_id: *lobby_id,
                config: *config,
            },
            DomainEvent::RunStarted { lobby_id, run_id, config } => DomainEventView::RunStarted {
                lobby_id: *lobby_id,
                run_id: *run_id,
                config: *config,
            },
            DomainEvent::ResultSubmitted { lobby_id, run_id, result } =>
                DomainEventView::ResultSubmitted {
                lobby_id: *lobby_id,
                run_id: *run_id,
                result: *result,
            },
            DomainEvent::SubmitterRemoved { lobby_id, run_id, participant_id } =>
                DomainEventView::SubmitterRemoved {
                lobby_id: *lobby_id,
                run_id: *run_id,
                participant_id: *participant_id,
            },
            DomainEvent::RunEnded { lobby_id, run_id, status, results } => DomainEventView::RunEnded {
                lobby_id: *lobby_id,
                run_id: *run_id,
                status: *status,
                results: results@,
            },
            DomainEvent::CommandFailed { command, reason } => DomainEventView::CommandFailed {
                command: command@,
                reason: reason@,
            },
        }
    }
}

} // verus!
