//! Translation between the events peers exchange and the lobby domain:
//! received events become commands, local domain events become events to
//! broadcast.

use vstd::prelude::*;
use crate::ident::Uuid;
use crate::domain::participant::ParticipationMode;
use crate::domain::lobby::str_eq;
use crate::application::commands::{DomainCommand, DomainCommandView};
use crate::application::events::{DomainEvent as CoreDomainEvent, DomainEventView};
use crate::p2p::event::{DelegationReason, DomainEvent as P2PDomainEvent, EventView};

verus! {

/// The participation mode named by a text: "Active" or "Spectating".
pub open spec fn mode_from_text(t: Seq<char>) -> Option<ParticipationMode> {
    if t == ParticipationMode::Active.name_spec() {
        Some(ParticipationMode::Active)
    } else if t == ParticipationMode::Spectating.name_spec() {
        Some(ParticipationMode::Spectating)
    } else {
        None
    }
}

/// The command that applies a received event in `lobby`, as a view.
pub open spec fn command_for(lobby: Uuid, e: EventView) -> Option<DomainCommandView> {
    match e {
        EventView::GuestLeft { participant_id } => Some(
            DomainCommandView::LeaveLobby { lobby_id: lobby, participant_id },
        ),
        EventView::GuestKicked { participant_id, kicked_by } => Some(
            DomainCommandView::KickGuest { lobby_id: lobby, host_id: kicked_by, guest_id: participant_id },
        ),
        EventView::HostDelegated { from, to, .. } => Some(
            DomainCommandView::DelegateHost { lobby_id: lobby, current_host_id: from, new_host_id: to },
        ),
        EventView::ParticipationModeChanged { participant_id, new_mode } => match mode_from_text(new_mode) {
            Some(m) => Some(
                DomainCommandView::UpdateParticipantMode { lobby_id: lobby, participant_id, new_mode: m },
            ),
            None => None,
        },
        EventView::GuestJoined { participant } => Some(
            DomainCommandView::AddParticipant { lobby_id: lobby, participant },
        ),
        EventView::ActivityQueued { config } => Some(
            DomainCommandView::QueueActivity { lobby_id: lobby, config },
        ),
        EventView::ResultSubmitted { run_id, result } => Some(
            DomainCommandView::SubmitResult { lobby_id: lobby, run_id, result },
        ),
        _ => None,
    }
}

/// The view of an optional command.
pub open spec fn opt_command_view(c: Option<DomainCommand>) -> Option<DomainCommandView> {
    match c {
        Some(c) => Some(c@),
        None => None,
    }
}

/// The event to broadcast for a local domain event, as a view.
pub open spec fn p2p_event_for(e: DomainEventView) -> Option<EventView> {
    match e {
        DomainEventView::LobbyCreated { lobby } => Some(
            EventView::LobbyCreated { lobby_id: lobby.id, host_id: lobby.host_id, name: lobby.name },
        ),
        DomainEventView::GuestJoined { participant, .. } => Some(EventView::GuestJoined { participant }),
        DomainEventView::GuestLeft { participant_id, .. } => Some(EventView::GuestLeft { participant_id }),
        DomainEventView::GuestKicked { participant_id, kicked_by, .. } => Some(
            EventView::GuestKicked { participant_id, kicked_by },
        ),
        DomainEventView::HostDelegated { from, to, .. } => Some(
            EventView::HostDelegated { from, to, reason: DelegationReason::Manual },
        ),
        DomainEventView::ParticipationModeChanged { participant_id, new_mode, .. } => Some(
            EventView::ParticipationModeChanged { participant_id, new_mode: new_mode.name_spec() },
        ),
        DomainEventView::ActivityQueued { config, .. } => Some(EventView::ActivityQueued { config }),
        DomainEventView::RunStarted { run_id, config, .. } => Some(
            EventView::RunStarted { run_id, config, required_submitters: Seq::empty() },
        ),
        DomainEventView::ResultSubmitted { run_id, result, .. } => Some(
            EventView::ResultSubmitted { run_id, result },
        ),
        DomainEventView::SubmitterRemoved { .. } => None,
        DomainEventView::RunEnded { run_id, status, results, .. } => Some(
            EventView::RunEnded { run_id, status, results },
        ),
        DomainEventView::CommandFailed { .. } => None,
    }
}

/// The view of an optional P2P event.
pub open spec fn opt_event_view(e: Option<P2PDomainEvent>) -> Option<EventView> {
    match e {
        Some(e) => Some(e@),
        None => None,
    }
}

/// A mode change announced by the host is read back by guests as the same
/// mode: the text that names a mode is translated to that mode.
pub proof fn lemma_mode_text_roundtrip(m: ParticipationMode)
    ensures
        mode_from_text(m.name_spec()) == Some(m),
{
    assert(ParticipationMode::Active.name_spec() != ParticipationMode::Spectating.name_spec()) by {
        assert(ParticipationMode::Active.name_spec().len() != ParticipationMode::Spectating.name_spec().len());
    }
}

/// What the host broadcasts for a local domain event, a guest translates
/// back into the command that makes the same change: joins, departures,
/// kicks, host changes, mode changes, queued activities and submitted
/// results come back with their data intact; the lobby's creation and the
/// start and end of runs come back as no command.
pub proof fn lemma_event_roundtrip(lobby: Uuid, e: DomainEventView)
    requires
        p2p_event_for(e) is Some,
    ensures
        ({
            let c = command_for(lobby, p2p_event_for(e).unwrap());
            match e {
                DomainEventView::GuestJoined { participant, .. } => c == Some(
                    DomainCommandView::AddParticipant { lobby_id: lobby, participant },
                ),
                DomainEventView::GuestLeft { participant_id, .. } => c == Some(
                    DomainCommandView::LeaveLobby { lobby_id: lobby, participant_id },
                ),
                DomainEventView::GuestKicked { participant_id, kicked_by, .. } => c == Some(
                    DomainCommandView::KickGuest { lobby_id: lobby, host_id: kicked_by, guest_id: participant_id },
                ),
                DomainEventView::HostDelegated { from, to, .. } => c == Some(
                    DomainCommandView::DelegateHost { lobby_id: lobby, current_host_id: from, new_host_id: to },
                ),
                DomainEventView::ParticipationModeChanged { participant_id, new_mode, .. } => c == Some(
                    DomainCommandView::UpdateParticipantMode { lobby_id: lobby, participant_id, new_mode },
                ),
                DomainEventView::ActivityQueued { config, .. } => c == Some(
                    DomainCommandView::QueueActivity { lobby_id: lobby, config },
                ),
                DomainEventView::ResultSubmitted { run_id, result, .. } => c == Some(
                    DomainCommandView::SubmitResult { lobby_id: lobby, run_id, result },
                ),
                _ => c is None,
            }
        }),
{
    match e {
        DomainEventView::ParticipationModeChanged { new_mode, .. } => {
            lemma_mode_text_roundtrip(new_mode);
        },
        _ => {},
    }
}

/// Translates events for one lobby.
#[derive(Debug, Clone, Copy)]
pub struct EventTranslator {
    lobby_id: Uuid,
}

impl EventTranslator {
    pub closed spec fn lobby(self) -> Uuid {
        self.lobby_id
    }

    pub fn new(lobby_id: Uuid) -> (t: Self)
        ensures
            t.lobby() == lobby_id,
    {
        EventTranslator { lobby_id }
    }

    pub fn lobby_id(&self) -> (id: Uuid)
        ensures
            id == self.lobby(),
    {
        self.lobby_id
    }

    /// The command that applies an event received from a peer; none for the
    /// events that are state snapshots (creation, run start and end) and for
    /// a mode change to an unknown mode.
    pub fn to_domain_command(&self, event: &P2PDomainEvent) -> (r: Option<DomainCommand>)
        ensures
            opt_command_view(r) == command_for(self.lobby(), event@),
            match *event {
                P2PDomainEvent::GuestLeft { participant_id } => r == Some(
                    DomainCommand::LeaveLobby { lobby_id: self.lobby(), participant_id },
                ),
                P2PDomainEvent::GuestKicked { participant_id, kicked_by } => r == Some(
                    DomainCommand::KickGuest {
                        lobby_id: self.lobby(),
                        host_id: kicked_by,
                        guest_id: participant_id,
                    },
                ),
                P2PDomainEvent::HostDelegated { from, to, .. } => r == Some(
                    DomainCommand::DelegateHost {
                        lobby_id: self.lobby(),
                        current_host_id: from,
                        new_host_id: to,
                    },
                ),
                P2PDomainEvent::ParticipationModeChanged { participant_id, new_mode } => match mode_from_text(
                    new_mode@,
                ) {
                    Some(m) => r == Some(
                        DomainCommand::UpdateParticipantMode {
                            lobby_id: self.lobby(),
                            participant_id,
                            new_mode: m,
                        },
                    ),
                    None => r is None,
                },
                P2PDomainEvent::GuestJoined { participant } => {
                    &&& r matches Some(DomainCommand::AddParticipant { lobby_id: l, participant: p })
                    &&& l == self.lobby()
                    &&& p@ == participant@
                },
                P2PDomainEvent::ActivityQueued { config } => r == Some(
                    DomainCommand::QueueActivity { lobby_id: self.lobby(), config },
                ),
                P2PDomainEvent::ResultSubmitted { run_id, result } => r == Some(
                    DomainCommand::SubmitResult { lobby_id: self.lobby(), run_id, result },
                ),
                P2PDomainEvent::LobbyCreated { .. } => r is None,
                P2PDomainEvent::RunStarted { .. } => r is None,
                P2PDomainEvent::RunEnded { .. } => r is None,
            },
    {
        match event {
            P2PDomainEvent::GuestLeft { participant_id } => Some(
                DomainCommand::LeaveLobby { lobby_id: self.lobby_id, participant_id: *participant_id },
            ),
            P2PDomainEvent::GuestKicked { participant_id, kicked_by } => Some(
                DomainCommand::KickGuest {
                    lobby_id: self.lobby_id,
                    host_id: *kicked_by,
                    guest_id: *participant_id,
                },
            ),
            P2PDomainEvent::HostDelegated { from, to, .. } => Some(
                DomainCommand::DelegateHost {
                    lobby_id: self.lobby_id,
                    current_host_id: *from,
                    new_host_id: *to,
                },
            ),
            P2PDomainEvent::ParticipationModeChanged { participant_id, new_mode } => {
                proof {
                    reveal_strlit("Active");
                    reveal_strlit("Spectating");
                    assert("Active"@ =~= ParticipationMode::Active.name_spec());
                    assert("Spectating"@ =~= ParticipationMode::Spectating.name_spec());
                }
                let mode = if str_eq(new_mode.as_str(), "Active") {
                    ParticipationMode::Active
                } else if str_eq(new_mode.as_str(), "Spectating") {
                    ParticipationMode::Spectating
                } else {
                    return None;
                };
                Some(
                    DomainCommand::UpdateParticipantMode {
                        lobby_id: self.lobby_id,
                        participant_id: *participant_id,
                        new_mode: mode,
                    },
                )
            },
            P2PDomainEvent::GuestJoined { participant } => Some(
                DomainCommand::AddParticipant {
                    lobby_id: self.lobby_id,
                    participant: participant.clone(),
                },
            ),
            P2PDomainEvent::ActivityQueued { config } => Some(
                DomainCommand::QueueActivity { lobby_id: self.lobby_id, config: config.clone() },
            ),
            P2PDomainEvent::ResultSubmitted { run_id, result } => Some(
                DomainCommand::SubmitResult {
                    lobby_id: self.lobby_id,
                    run_id: *run_id,
                    result: result.clone(),
                },
            ),
            P2PDomainEvent::LobbyCreated { .. } => None,
            P2PDomainEvent::RunStarted { .. } => None,
            P2PDomainEvent::RunEnded { .. } => None,
        }
    }

    /// The event to broadcast for a local domain event; none for a removed
    /// submitter and for a failed command. A started run is announced
    /// without its submitters (a snapshot brings them to guests), and a host
    /// change is announced as manual.
    pub fn to_p2p_event(&self, event: CoreDomainEvent) -> (r: Option<P2PDomainEvent>)
        ensures
            opt_event_view(r) == p2p_event_for(event@),
            match event {
                CoreDomainEvent::LobbyCreated { lobby } => r matches Some(e) && e@
                    == (EventView::LobbyCreated {
                    lobby_id: lobby@.id,
                    host_id: lobby@.host_id,
                    name: lobby@.name,
                }),
                CoreDomainEvent::GuestJoined { participant, .. } => r == Some(
                    P2PDomainEvent::GuestJoined { participant },
                ),
                CoreDomainEvent::GuestLeft { participant_id, .. } => r == Some(
                    P2PDomainEvent::GuestLeft { participant_id },
                ),
                CoreDomainEvent::GuestKicked { participant_id, kicked_by, .. } => r == Some(
                    P2PDomainEvent::GuestKicked { participant_id, kicked_by },
                ),
                CoreDomainEvent::HostDelegated { from, to, .. } => r == Some(
                    P2PDomainEvent::HostDelegated { from, to, reason: DelegationReason::Manual },
                ),
                CoreDomainEvent::ParticipationModeChanged { participant_id, new_mode, .. } => r matches Some(
                    e,
                ) && e@ == (EventView::ParticipationModeChanged {
                    participant_id,
                    new_mode: new_mode.name_spec(),
                }),
                CoreDomainEvent::ActivityQueued { config, .. } => r == Some(
                    P2PDomainEvent::ActivityQueued { config },
                ),
                CoreDomainEvent::RunStarted { run_id, config, .. } => r matches Some(e) && e@
                    == (EventView::RunStarted { run_id, config, required_submitters: Seq::empty() }),
                CoreDomainEvent::ResultSubmitted { run_id, result, .. } => r == Some(
                    P2PDomainEvent::ResultSubmitted { run_id, result },
                ),
                CoreDomainEvent::SubmitterRemoved { .. } => r is None,
                CoreDomainEvent::RunEnded { run_id, status, results, .. } => r == Some(
                    P2PDomainEvent::RunEnded { run_id, status, results },
                ),
                CoreDomainEvent::CommandFailed { .. } => r is None,
            },
    {
        match event {
            CoreDomainEvent::LobbyCreated { lobby } => {
                let name = String::from_str(lobby.name());
                Some(
                    P2PDomainEvent::LobbyCreated {
                        lobby_id: lobby.id(),
                        host_id: lobby.host_id(),
                        name,
                    },
                )
            },
            CoreDomainEvent::GuestJoined { participant, .. } => Some(
                P2PDomainEvent::GuestJoined { participant },
            ),
            CoreDomainEvent::GuestLeft { participant_id, .. } => Some(
                P2PDomainEvent::GuestLeft { participant_id },
            ),
            CoreDomainEvent::GuestKicked { participant_id, kicked_by, .. } => Some(
                P2PDomainEvent::GuestKicked { participant_id, kicked_by },
            ),
            CoreDomainEvent::HostDelegated { from, to, .. } => Some(
                P2PDomainEvent::HostDelegated { from, to, reason: DelegationReason::Manual },
            ),
            CoreDomainEvent::ParticipationModeChanged { participant_id, new_mode, .. } => Some(
                P2PDomainEvent::ParticipationModeChanged {
                    participant_id,
                    new_mode: new_mode.to_string(),
                },
            ),
            CoreDomainEvent::ActivityQueued { config, .. } => Some(
                P2PDomainEvent::ActivityQueued { config },
            ),
            CoreDomainEvent::RunStarted { run_id, config, .. } => {
                let required_submitters: Vec<Uuid> = Vec::new();
                proof {
                    assert(required_submitters@ =~= Seq::<Uuid>::empty());
                }
                Some(P2PDomainEvent::RunStarted { run_id, config, required_submitters })
            },
            CoreDomainEvent::ResultSubmitted { run_id, result, .. } => Some(
                P2PDomainEvent::ResultSubmitted { run_id, result },
            ),
            CoreDomainEvent::SubmitterRemoved { .. } => None,
            CoreDomainEvent::RunEnded { run_id, status, results, .. } => Some(
                P2PDomainEvent::RunEnded { run_id, status, results },
            ),
            CoreDomainEvent::CommandFailed { .. } => None,
        }
    }
}

} // verus!
