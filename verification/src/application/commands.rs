//! Commands that drive the lobby domain.

use vstd::prelude::*;
use crate::ident::Uuid;
use crate::domain::participant::{Participant, ParticipantView, ParticipationMode};
use crate::domain::activity::{ActivityConfig, ActivityResult};
use crate::domain::activity_run::ActivityRunId;

verus! {

#[allow(inconsistent_fields)]
/// A request to change lobbies or runs; the event loop answers each with
/// one event.
#[derive(Debug, Clone, PartialEq)]
pub enum DomainCommand {
    /// Create a lobby hosted by a new participant named `host_name`; the
    /// lobby gets `lobby_id`, or a fresh id when none is given.
    CreateLobby { lobby_id: Option<Uuid>, lobby_name: String, host_name: String },
    /// Create a lobby around an existing host.
    CreateLobbyWithHost { lobby_id: Uuid, lobby_name: String, host: Participant },
    JoinLobby { lobby_id: Uuid, guest_name: String },
    LeaveLobby { lobby_id: Uuid, participant_id: Uuid },
    KickGuest { lobby_id: Uuid, host_id: Uuid, guest_id: Uuid },
    /// The lobby knows whether a run is in progress from its active run.
    ToggleParticipationMode { lobby_id: Uuid, participant_id: Uuid, requester_id: Uuid },
    DelegateHost { lobby_id: Uuid, current_host_id: Uuid, new_host_id: Uuid },
    /// Add a participant directly (when following the host).
    AddParticipant { lobby_id: Uuid, participant: Participant },
    /// Force-set a participant's mode (when following the host).
    UpdateParticipantMode { lobby_id: Uuid, participant_id: Uuid, new_mode: ParticipationMode },
    QueueActivity { lobby_id: Uuid, config: ActivityConfig },
    /// Dequeue the next activity and start a run of it.
    StartNextRun { lobby_id: Uuid },
    SubmitResult { lobby_id: Uuid, run_id: ActivityRunId, result: ActivityResult },
    CancelRun { lobby_id: Uuid, run_id: ActivityRunId },
    /// Remove a participant from a run's required submitters (on disconnect).
    RemoveSubmitter { lobby_id: Uuid, run_id: ActivityRunId, participant_id: Uuid },
    /// A guest applies a run that the host already started.
    SyncRunStarted {
        lobby_id: Uuid,
        run_id: ActivityRunId,
        config: ActivityConfig,
        required_submitters: Vec<Uuid>,
    },
}

/// A command with its texts, participants and lists as views.
pub enum DomainCommandView {
    CreateLobby { lobby_id: Option<Uuid>, lobby_name: Seq<char>, host_name: Seq<char> },
    CreateLobbyWithHost { lobby_id: Uuid, lobby_name: Seq<char>, host: ParticipantView },
    JoinLobby { lobby_id: Uuid, guest_name: Seq<char> },
    LeaveLobby { lobby_id: Uuid, participant_id: Uuid },
    KickGuest { lobby_id: Uuid, host_id: Uuid, guest_id: Uuid },
    ToggleParticipationMode { lobby_id: Uuid, participant_id: Uuid, requester_id: Uuid },
    DelegateHost { lobby_id: Uuid, current_host_id: Uuid, new_host_id: Uuid },
    AddParticipant { lobby_id: Uuid, participant: ParticipantView },
    UpdateParticipantMode { lobby_id: Uuid, participant_id: Uuid, new_mode: ParticipationMode },
    QueueActivity { lobby_id: Uuid, config: ActivityConfig },
    StartNextRun { lobby_id: Uuid },
    SubmitResult { lobby_id: Uuid, run_id: ActivityRunId, result: ActivityResult },
    CancelRun { lobby_id: Uuid, run_id: ActivityRunId },
    RemoveSubmitter { lobby_id: Uuid, run_id: ActivityRunId, participant_id: Uuid },
    SyncRunStarted {
        lobby_id: Uuid,
        run_id: ActivityRunId,
        config: ActivityConfig,
        /// Who must submit; their order does not matter.
        required_submitters: Set<Uuid>,
    },
}

impl View for DomainCommand {
    type V = DomainCommandView;

    open spec fn view(&self) -> DomainCommandView {
        match self {
            DomainCommand::CreateLobby { lobby_id, lobby_name, host_name } =>
                DomainCommandView::CreateLobby {
                lobby_id: *lobby_id,
                lobby_name: lobby_name@,
                host_name: host_name@,
            },
            DomainCommand::CreateLobbyWithHost { lobby_id, lobby_name, host } =>
                DomainCommandView::CreateLobbyWithHost {
                lobby_id: *lobby_id,
                lobby_name: lobby_name@,
                host: host@,
            },
            DomainCommand::JoinLobby { lobby_id, guest_name } => DomainCommandView::JoinLobby {
                lobby_id: *lobby_id,
                guest_name: guest_name@,
            },
            DomainCommand::LeaveLobby { lobby_id, participant_id } => DomainCommandView::LeaveLobby {
                lobby_id: *lobby_id,
                participant_id: *participant_id,
            },
            DomainCommand::KickGuest { lobby_id, host_id, guest_id } => DomainCommandView::KickGuest {
                lobby_id: *lobby_id,
                host_id: *host_id,
                guest_id: *guest_id,
            },
            DomainCommand::ToggleParticipationMode { lobby_id, participant_id, requester_id } =>
                DomainCommandView::ToggleParticipationMode {
                lobby_id: *lobby_id,
                participant_id: *participant_id,
                requester_id: *requester_id,
            },
            DomainCommand::DelegateHost { lobby_id, current_host_id, new_host_id } =>
                DomainCommandView::DelegateHost {
                lobby_id: *lobby_id,
                current_host_id: *current_host_id,
                new_host_id: *new_host_id,
            },
            DomainCommand::AddParticipant { lobby_id, participant } =>
                DomainCommandView::AddParticipant { lobby_id: *lobby_id, participant: participant@ },
            DomainCommand::UpdateParticipantMode { lobby_id, participant_id, new_mode } =>
                DomainCommandView::UpdateParticipantMode {
                lobby_id: *lobby_id,
                participant_id: *participant_id,
                new_mode: *new_mode,
            },
            DomainCommand::QueueActivity { lobby_id, config } => DomainCommandView::QueueActivity {
                lobby_id: *lobby_id,
                config: *config,
            },
            DomainCommand::StartNextRun { lobby_id } => DomainCommandView::StartNextRun {
                lobby_id: *lobby_id,
            },
            DomainCommand::SubmitResult { lobby_id, run_id, result } =>
                DomainCommandView::SubmitResult {
                lobby_id: *lobby_id,
                run_id: *run_id,
                result: *result,
            },
            DomainCommand::CancelRun { lobby_id, run_id } => DomainCommandView::CancelRun {
                lobby_id: *lobby_id,
                run_id: *run_id,
            },
            DomainCommand::RemoveSubmitter { lobby_id, run_id, participant_id } =>
                DomainCommandView::RemoveSubmitter {
                lobby_id: *lobby_id,
                run_id: *run_id,
                participant_id: *participant_id,
            },
            DomainCommand::SyncRunStarted { lobby_id, run_id, config, required_submitters } =>
                DomainCommandView::SyncRunStarted {
                lobby_id: *lobby_id,
                run_id: *run_id,
                config: *config,
                required_submitters: required_submitters@.to_set(),
            },
        }
    }
}

/// The views of a sequence of commands.
pub open spec fn command_views(s: Seq<DomainCommand>) -> Seq<DomainCommandView> {
    s.map_values(|c: DomainCommand| c@)
}

} // verus!
