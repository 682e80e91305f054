//! The domain event loop: it owns the lobbies and runs and answers each
//! command with one event.

use vstd::prelude::*;
use std::collections::{HashMap, HashSet};
use crate::ident::{Uuid, random_uuid, uuid_string, uuid_text};
use crate::domain::participant::{
    LobbyRole, Participant, ParticipantView, ParticipationMode, Timestamp, name_error,
};
use crate::domain::activity::{ActivityConfig, ActivityResult};
use crate::domain::activity_run::{
    ActivityRun, ActivityRunId, ActivityRunView, RunStatus, remove_outcome, remove_state,
    submit_outcome, submit_state,
};
use crate::domain::lobby::{Lobby, LobbyView, with_mode};
use crate::application::commands::DomainCommand;
use crate::application::events::{DomainEvent, DomainEventView};

verus! {

broadcast use vstd::std_specs::hash::group_hash_axioms;

/// The values that a command may need and that only chance and the clock
/// give: an id for a new lobby, for a new participant and for a new run,
/// and the time.
#[derive(Debug, Clone, Copy)]
pub struct Fresh {
    pub lobby_id: Uuid,
    pub participant_id: Uuid,
    pub run_id: Uuid,
    pub now: Timestamp,
}

impl Fresh {
    /// Fresh random ids and the current time.
    pub fn draw() -> Self {
        Fresh {
            lobby_id: random_uuid(),
            participant_id: random_uuid(),
            run_id: random_uuid(),
            now: Timestamp::now(),
        }
    }
}

/// What the event loop holds: lobbies and runs by id.
pub struct LoopView {
    pub lobbies: Map<Uuid, LobbyView>,
    pub runs: Map<ActivityRunId, ActivityRunView>,
}

/// The answer a command is owed: an exact event, or the end of a run, whose
/// results come in the map's order (any order).
pub enum Answer {
    Exact(DomainEventView),
    RunEnded {
        lobby_id: Uuid,
        run_id: ActivityRunId,
        status: RunStatus,
        results: Map<Uuid, ActivityResult>,
    },
}

/// `s` lists the values of `m`, each once.
pub open spec fn lists_results(s: Seq<ActivityResult>, m: Map<Uuid, ActivityResult>) -> bool {
    exists|ks: Seq<Uuid>|
        {
            &&& ks.no_duplicates()
            &&& ks.to_set() == m.dom()
            &&& ks.len() == s.len()
            &&& forall|i: int| 0 <= i < ks.len() ==> #[trigger] s[i] == m[ks[i]]
        }
}

/// The event `ev` is the answer `a`.
pub open spec fn fits(ev: DomainEventView, a: Answer) -> bool {
    match a {
        Answer::Exact(e) => ev == e,
        Answer::RunEnded { lobby_id, run_id, status, results } => match ev {
            DomainEventView::RunEnded { lobby_id: l, run_id: r, status: s, results: rs } => l
                == lobby_id && r == run_id && s == status && lists_results(rs, results),
            _ => false,
        },
    }
}

/// The failure of command `command` for `reason`.
pub open spec fn failed(command: Seq<char>, reason: Seq<char>) -> Answer {
    Answer::Exact(DomainEventView::CommandFailed { command, reason })
}

/// The message for a missing thing of kind `kind` with id `id`, such as
/// "Lobby 550e8400-e29b-41d4-a716-446655440000 not found".
pub open spec fn not_found_text(kind: Seq<char>, id: Uuid) -> Seq<char> {
    kind + " "@ + uuid_text(id) + " not found"@
}

/// The lobby that `with_id(id, name, host)` makes.
pub open spec fn new_lobby(id: Uuid, name: Seq<char>, host: ParticipantView) -> LobbyView {
    LobbyView {
        id,
        name,
        participants: map![host.id => host],
        host_id: host.id,
        queue: Seq::empty(),
        active_run: None,
    }
}

/// The participant that `create(id, name, role, now)` makes when the name is valid.
pub open spec fn new_participant(id: Uuid, name: Seq<char>, role: LobbyRole, now: Timestamp) -> ParticipantView {
    ParticipantView { id, name, role, mode: ParticipationMode::Active, joined_at: now.millis() }
}

impl LoopView {
    /// The state with lobby `id` set to `l`.
    pub open spec fn put_lobby(self, id: Uuid, l: LobbyView) -> LoopView {
        LoopView { lobbies: self.lobbies.insert(id, l), ..self }
    }

    /// The state with run `id` set to `r`.
    pub open spec fn put_run(self, id: Uuid, r: ActivityRunView) -> LoopView {
        LoopView { runs: self.runs.insert(id, r), ..self }
    }

    /// The state with the active run of lobby `id` cleared, if that lobby exists.
    pub open spec fn clear_run_of(self, id: Uuid) -> LoopView {
        if self.lobbies.contains_key(id) {
            self.put_lobby(id, LobbyView { active_run: None, ..self.lobbies[id] })
        } else {
            self
        }
    }

    /// The answer to ending run `run_id` of lobby `lobby_id` in state `r`.
    pub open spec fn run_ended(lobby_id: Uuid, run_id: Uuid, r: ActivityRunView) -> Answer {
        Answer::RunEnded { lobby_id, run_id, status: r.status, results: r.results }
    }

    /// The state and answer after `command`, with `f` as the fresh values.
    pub open spec fn step(self, command: DomainCommand, f: Fresh) -> (LoopView, Answer) {
        match command {
            DomainCommand::CreateLobby { lobby_id, lobby_name, host_name } => match name_error(
                host_name@,
            ) {
                Some(e) => (self, failed("CreateLobby"@, e.message_spec())),
                None => {
                    let id = match lobby_id {
                        Some(id) => id,
                        None => f.lobby_id,
                    };
                    let host = new_participant(f.participant_id, host_name@, LobbyRole::Host, f.now);
                    let l = new_lobby(id, lobby_name@, host);
                    (self.put_lobby(id, l), Answer::Exact(DomainEventView::LobbyCreated { lobby: l }))
                },
            },
            DomainCommand::CreateLobbyWithHost { lobby_id, lobby_name, host } => if host@.role
                != LobbyRole::Host {
                (
                    self,
                    failed(
                        "CreateLobbyWithHost"@,
                        crate::domain::lobby::LobbyError::NoHost.message_spec(),
                    ),
                )
            } else {
                let l = new_lobby(lobby_id, lobby_name@, host@);
                (
                    self.put_lobby(lobby_id, l),
                    Answer::Exact(DomainEventView::LobbyCreated { lobby: l }),
                )
            },
            DomainCommand::JoinLobby { lobby_id, guest_name } => if !self.lobbies.contains_key(
                lobby_id,
            ) {
                (self, failed("JoinLobby"@, not_found_text("Lobby"@, lobby_id)))
            } else {
                match name_error(guest_name@) {
                    Some(e) => (self, failed("JoinLobby"@, e.message_spec())),
                    None => {
                        let g = new_participant(
                            f.participant_id,
                            guest_name@,
                            LobbyRole::Guest,
                            f.now,
                        );
                        match self.lobbies[lobby_id].add_guest_outcome(g) {
                            Err(e) => (self, failed("JoinLobby"@, e.message_spec())),
                            Ok(_) => (
                                self.put_lobby(lobby_id, self.lobbies[lobby_id].add_guest_state(g)),
                                Answer::Exact(
                                    DomainEventView::GuestJoined { lobby_id, participant: g },
                                ),
                            ),
                        }
                    },
                }
            },
            DomainCommand::LeaveLobby { lobby_id, participant_id } => if !self.lobbies.contains_key(
                lobby_id,
            ) {
                (self, failed("LeaveLobby"@, not_found_text("Lobby"@, lobby_id)))
            } else {
                let l = self.lobbies[lobby_id];
                match l.remove_outcome(participant_id) {
                    Err(e) => (self, failed("LeaveLobby"@, e.message_spec())),
                    Ok(_) => (
                        self.put_lobby(
                            lobby_id,
                            LobbyView { participants: l.participants.remove(participant_id), ..l },
                        ),
                        Answer::Exact(DomainEventView::GuestLeft { lobby_id, participant_id }),
                    ),
                }
            },
            DomainCommand::KickGuest { lobby_id, host_id, guest_id } => if !self.lobbies.contains_key(
                lobby_id,
            ) {
                (self, failed("KickGuest"@, not_found_text("Lobby"@, lobby_id)))
            } else {
                let l = self.lobbies[lobby_id];
                match l.kick_outcome(guest_id, host_id) {
                    Err(e) => (self, failed("KickGuest"@, e.message_spec())),
                    Ok(_) => (
                        self.put_lobby(
                            lobby_id,
                            LobbyView { participants: l.participants.remove(guest_id), ..l },
                        ),
                        Answer::Exact(
                            DomainEventView::GuestKicked {
                                lobby_id,
                                participant_id: guest_id,
                                kicked_by: host_id,
                            },
                        ),
                    ),
                }
            },
            DomainCommand::ToggleParticipationMode { lobby_id, participant_id, requester_id } =>
                if !self.lobbies.contains_key(lobby_id) {
                (self, failed("ToggleParticipationMode"@, not_found_text("Lobby"@, lobby_id)))
            } else {
                let l = self.lobbies[lobby_id];
                match l.toggle_outcome(participant_id, requester_id) {
                    Err(e) => (self, failed("ToggleParticipationMode"@, e.message_spec())),
                    Ok(new_mode) => (
                        self.put_lobby(lobby_id, l.toggle_state(participant_id, requester_id)),
                        Answer::Exact(
                            DomainEventView::ParticipationModeChanged {
                                lobby_id,
                                participant_id,
                                new_mode,
                            },
                        ),
                    ),
                }
            },
            DomainCommand::DelegateHost { lobby_id, current_host_id, new_host_id } =>
                if !self.lobbies.contains_key(lobby_id) {
                (self, failed("DelegateHost"@, not_found_text("Lobby"@, lobby_id)))
            } else {
                let l = self.lobbies[lobby_id];
                match l.delegate_outcome(new_host_id) {
                    Err(e) => (self, failed("DelegateHost"@, e.message_spec())),
                    Ok(_) => (
                        self.put_lobby(lobby_id, l.delegate_state(new_host_id)),
                        Answer::Exact(
                            DomainEventView::HostDelegated {
                                lobby_id,
                                from: l.host_id,
                                to: new_host_id,
                            },
                        ),
                    ),
                }
            },
            DomainCommand::AddParticipant { lobby_id, participant } => if !self.lobbies.contains_key(
                lobby_id,
            ) {
                (self, failed("AddParticipant"@, not_found_text("Lobby"@, lobby_id)))
            } else {
                let l = self.lobbies[lobby_id];
                match l.add_guest_outcome(participant@) {
                    Err(e) => (self, failed("AddParticipant"@, e.message_spec())),
                    Ok(_) => (
                        self.put_lobby(lobby_id, l.add_guest_state(participant@)),
                        Answer::Exact(
                            DomainEventView::GuestJoined { lobby_id, participant: participant@ },
                        ),
                    ),
                }
            },
            DomainCommand::UpdateParticipantMode { lobby_id, participant_id, new_mode } =>
                if !self.lobbies.contains_key(lobby_id) {
                (self, failed("UpdateParticipantMode"@, not_found_text("Lobby"@, lobby_id)))
            } else {
                let l = self.lobbies[lobby_id];
                if !l.participants.contains_key(participant_id) {
                    (
                        self,
                        failed(
                            "UpdateParticipantMode"@,
                            not_found_text("Participant"@, participant_id),
                        ),
                    )
                } else {
                    (
                        self.put_lobby(
                            lobby_id,
                            LobbyView {
                                participants: l.participants.insert(
                                    participant_id,
                                    with_mode(l.participants[participant_id], new_mode),
                                ),
                                ..l
                            },
                        ),
                        Answer::Exact(
                            DomainEventView::ParticipationModeChanged {
                                lobby_id,
                                participant_id,
                                new_mode,
                            },
                        ),
                    )
                }
            },
            DomainCommand::QueueActivity { lobby_id, config } => if !self.lobbies.contains_key(
                lobby_id,
            ) {
                (self, failed("QueueActivity"@, not_found_text("Lobby"@, lobby_id)))
            } else {
                let l = self.lobbies[lobby_id];
                if l.queue_has(config.id) {
                    (
                        self,
                        failed(
                            "QueueActivity"@,
                            crate::domain::lobby::LobbyError::ActivityAlreadyExists(
                                config.id,
                            ).message_spec(),
                        ),
                    )
                } else {
                    (
                        self.put_lobby(lobby_id, LobbyView { queue: l.queue.push(config), ..l }),
                        Answer::Exact(DomainEventView::ActivityQueued { lobby_id, config }),
                    )
                }
            },
            DomainCommand::StartNextRun { lobby_id } => if !self.lobbies.contains_key(lobby_id) {
                (self, failed("StartNextRun"@, not_found_text("Lobby"@, lobby_id)))
            } else {
                let l = self.lobbies[lobby_id];
                if l.active_run is Some {
                    (
                        self,
                        failed(
                            "StartNextRun"@,
                            crate::domain::lobby::LobbyError::RunAlreadyInProgress.message_spec(),
                        ),
                    )
                } else if l.queue.len() == 0 {
                    (
                        self,
                        failed(
                            "StartNextRun"@,
                            crate::domain::lobby::LobbyError::EmptyQueue.message_spec(),
                        ),
                    )
                } else {
                    let config = l.queue[0];
                    let run = ActivityRunView {
                        id: f.run_id,
                        lobby_id,
                        config,
                        required: l.active_ids(),
                        results: Map::empty(),
                        status: RunStatus::InProgress,
                    };
                    (
                        self.put_lobby(
                            lobby_id,
                            LobbyView {
                                queue: l.queue.drop_first(),
                                active_run: Some(f.run_id),
                                ..l
                            },
                        ).put_run(f.run_id, run),
                        Answer::Exact(
                            DomainEventView::RunStarted { lobby_id, run_id: f.run_id, config },
                        ),
                    )
                }
            },
            DomainCommand::SubmitResult { lobby_id, run_id, result } => if !self.runs.contains_key(
                run_id,
            ) {
                (self, failed("SubmitResult"@, not_found_text("Run"@, run_id)))
            } else {
                let r = self.runs[run_id];
                match submit_outcome(r, result.participant_id) {
                    Err(e) => (self, failed("SubmitResult"@, e.message_spec())),
                    Ok(completed) => {
                        let r2 = submit_state(r, result);
                        if completed {
                            (
                                self.put_run(run_id, r2).clear_run_of(lobby_id),
                                LoopView::run_ended(lobby_id, run_id, r2),
                            )
                        } else {
                            (
                                self.put_run(run_id, r2),
                                Answer::Exact(
                                    DomainEventView::ResultSubmitted { lobby_id, run_id, result },
                                ),
                            )
                        }
                    },
                }
            },
            DomainCommand::CancelRun { lobby_id, run_id } => if !self.runs.contains_key(run_id) {
                (self, failed("CancelRun"@, not_found_text("Run"@, run_id)))
            } else {
                let r = self.runs[run_id];
                if r.status != RunStatus::InProgress {
                    (
                        self,
                        failed(
                            "CancelRun"@,
                            crate::domain::activity_run::ActivityRunError::NotInProgress.message_spec(),
                        ),
                    )
                } else {
                    let r2 = ActivityRunView { status: RunStatus::Cancelled, ..r };
                    (
                        self.put_run(run_id, r2).clear_run_of(lobby_id),
                        LoopView::run_ended(lobby_id, run_id, r2),
                    )
                }
            },
            DomainCommand::RemoveSubmitter { lobby_id, run_id, participant_id } =>
                if !self.runs.contains_key(run_id) {
                (self, failed("RemoveSubmitter"@, not_found_text("Run"@, run_id)))
            } else {
                let r = self.runs[run_id];
                match remove_outcome(r, participant_id) {
                    Err(e) => (self, failed("RemoveSubmitter"@, e.message_spec())),
                    Ok(ended) => {
                        let r2 = remove_state(r, participant_id);
                        if ended {
                            (
                                self.put_run(run_id, r2).clear_run_of(lobby_id),
                                LoopView::run_ended(lobby_id, run_id, r2),
                            )
                        } else {
                            (
                                self.put_run(run_id, r2),
                                Answer::Exact(
                                    DomainEventView::SubmitterRemoved {
                                        lobby_id,
                                        run_id,
                                        participant_id,
                                    },
                                ),
                            )
                        }
                    },
                }
            },
            DomainCommand::SyncRunStarted { lobby_id, run_id, config, required_submitters } =>
                if !self.lobbies.contains_key(lobby_id) {
                (self, failed("SyncRunStarted"@, not_found_text("Lobby"@, lobby_id)))
            } else {
                let l = self.lobbies[lobby_id];
                if l.active_run is Some {
                    (
                        self,
                        failed(
                            "SyncRunStarted"@,
                            crate::domain::lobby::LobbyError::RunAlreadyInProgress.message_spec(),
                        ),
                    )
                } else {
                    let run = ActivityRunView {
                        id: run_id,
                        lobby_id,
                        config,
                        required: required_submitters@.to_set(),
                        results: Map::empty(),
                        status: RunStatus::InProgress,
                    };
                    (
                        self.put_lobby(lobby_id, LobbyView { active_run: Some(run_id), ..l }).put_run(
                            run_id,
                            run,
                        ),
                        Answer::Exact(DomainEventView::RunStarted { lobby_id, run_id, config }),
                    )
                }
            },
        }
    }
}

/// Every lobby of `s` has exactly one host.
pub open spec fn all_one_host(s: LoopView) -> bool {
    forall|id: Uuid| #[trigger] s.lobbies.contains_key(id) ==> s.lobbies[id].one_host()
}

/// Every command keeps exactly one host in every lobby.
pub proof fn lemma_step_keeps_one_host(s: LoopView, c: DomainCommand, f: Fresh)
    requires
        all_one_host(s),
    ensures
        all_one_host(s.step(c, f).0),
{
    let s2 = s.step(c, f).0;
    let target: Uuid = match c {
        DomainCommand::CreateLobby { lobby_id, .. } => match lobby_id {
            Some(id) => id,
            None => f.lobby_id,
        },
        DomainCommand::CreateLobbyWithHost { lobby_id, .. } => lobby_id,
        DomainCommand::JoinLobby { lobby_id, .. } => lobby_id,
        DomainCommand::LeaveLobby { lobby_id, .. } => lobby_id,
        DomainCommand::KickGuest { lobby_id, .. } => lobby_id,
        DomainCommand::ToggleParticipationMode { lobby_id, .. } => lobby_id,
        DomainCommand::DelegateHost { lobby_id, .. } => lobby_id,
        DomainCommand::AddParticipant { lobby_id, .. } => lobby_id,
        DomainCommand::UpdateParticipantMode { lobby_id, .. } => lobby_id,
        DomainCommand::QueueActivity { lobby_id, .. } => lobby_id,
        DomainCommand::StartNextRun { lobby_id } => lobby_id,
        DomainCommand::SubmitResult { lobby_id, .. } => lobby_id,
        DomainCommand::CancelRun { lobby_id, .. } => lobby_id,
        DomainCommand::RemoveSubmitter { lobby_id, .. } => lobby_id,
        DomainCommand::SyncRunStarted { lobby_id, .. } => lobby_id,
    };
    assert forall|id: Uuid| #[trigger] s2.lobbies.contains_key(id) implies s2.lobbies[id].one_host() by {
        if id == target && s2.lobbies[id] != s.lobbies[id] {
            match c {
                DomainCommand::CreateLobby { lobby_id, lobby_name, host_name } => {
                    let host = new_participant(f.participant_id, host_name@, LobbyRole::Host, f.now);
                    crate::domain::lobby::lemma_one_host_created(target, lobby_name@, host);
                },
                DomainCommand::CreateLobbyWithHost { lobby_id, lobby_name, host } => {
                    crate::domain::lobby::lemma_one_host_created(lobby_id, lobby_name@, host@);
                },
                DomainCommand::JoinLobby { lobby_id, guest_name } => {
                    let g = new_participant(f.participant_id, guest_name@, LobbyRole::Guest, f.now);
                    crate::domain::lobby::lemma_one_host_preserved(
                        s.lobbies[id], g, 0, 0, 0, ParticipationMode::Active);
                },
                DomainCommand::AddParticipant { lobby_id, participant } => {
                    crate::domain::lobby::lemma_one_host_preserved(
                        s.lobbies[id], participant@, 0, 0, 0, ParticipationMode::Active);
                },
                DomainCommand::LeaveLobby { lobby_id, participant_id } => {
                    let g = new_participant(f.participant_id, Seq::empty(), LobbyRole::Guest, f.now);
                    crate::domain::lobby::lemma_one_host_preserved(
                        s.lobbies[id], g, participant_id, 0, 0, ParticipationMode::Active);
                },
                DomainCommand::KickGuest { lobby_id, host_id, guest_id } => {
                    let g = new_participant(f.participant_id, Seq::empty(), LobbyRole::Guest, f.now);
                    crate::domain::lobby::lemma_one_host_preserved(
                        s.lobbies[id], g, guest_id, host_id, 0, ParticipationMode::Active);
                },
                DomainCommand::ToggleParticipationMode { lobby_id, participant_id, requester_id } => {
                    let g = new_participant(f.participant_id, Seq::empty(), LobbyRole::Guest, f.now);
                    crate::domain::lobby::lemma_one_host_preserved(
                        s.lobbies[id], g, participant_id, requester_id, 0, ParticipationMode::Active);
                },
                DomainCommand::DelegateHost { lobby_id, current_host_id, new_host_id } => {
                    let g = new_participant(f.participant_id, Seq::empty(), LobbyRole::Guest, f.now);
                    crate::domain::lobby::lemma_one_host_preserved(
                        s.lobbies[id], g, 0, 0, new_host_id, ParticipationMode::Active);
                },
                DomainCommand::UpdateParticipantMode { lobby_id, participant_id, new_mode } => {
                    let g = new_participant(f.participant_id, Seq::empty(), LobbyRole::Guest, f.now);
                    crate::domain::lobby::lemma_one_host_preserved(
                        s.lobbies[id], g, participant_id, 0, 0, new_mode);
                },
                _ => {},
            }
        }
    }
}

/// A participant leaves a lobby: leaving removes exactly that participant,
/// unless it is the host (which must hand the role on first) or is not in
/// the lobby, when the command fails and nothing changes.
pub proof fn lemma_leave_removes(s: LoopView, lobby_id: Uuid, pid: Uuid, f: Fresh)
    requires
        s.lobbies.contains_key(lobby_id),
    ensures
        ({
            let (s2, a) = s.step(DomainCommand::LeaveLobby { lobby_id, participant_id: pid }, f);
            let l = s.lobbies[lobby_id];
            if l.participants.contains_key(pid) && pid != l.host_id {
                &&& s2.lobbies.contains_key(lobby_id)
                &&& !s2.lobbies[lobby_id].participants.contains_key(pid)
                &&& forall|k: Uuid| k != pid ==> (#[trigger] s2.lobbies[lobby_id].participants.contains_key(k)
                    <==> l.participants.contains_key(k))
                &&& a == Answer::Exact(DomainEventView::GuestLeft { lobby_id, participant_id: pid })
            } else {
                &&& s2 == s
                &&& a is Exact && a->Exact_0 is CommandFailed
            }
        }),
{
}

/// No lobby of `s` has two participants with one name.
pub open spec fn all_names_distinct(s: LoopView) -> bool {
    forall|id: Uuid| #[trigger] s.lobbies.contains_key(id) ==> s.lobbies[id].names_distinct()
}

/// Every command keeps names unique within every lobby.
pub proof fn lemma_step_keeps_names_distinct(s: LoopView, c: DomainCommand, f: Fresh)
    requires
        all_names_distinct(s),
    ensures
        all_names_distinct(s.step(c, f).0),
{
    let s2 = s.step(c, f).0;
    assert forall|id: Uuid| #[trigger] s2.lobbies.contains_key(id) implies s2.lobbies[id].names_distinct() by {
        if s2.lobbies[id] != s.lobbies[id] || !s.lobbies.contains_key(id) {
            let g = new_participant(f.participant_id, Seq::empty(), LobbyRole::Guest, f.now);
            match c {
                DomainCommand::CreateLobby { lobby_id, lobby_name, host_name } => {
                    let host = new_participant(f.participant_id, host_name@, LobbyRole::Host, f.now);
                    crate::domain::lobby::lemma_names_distinct_created(id, lobby_name@, host);
                },
                DomainCommand::CreateLobbyWithHost { lobby_id, lobby_name, host } => {
                    crate::domain::lobby::lemma_names_distinct_created(lobby_id, lobby_name@, host@);
                },
                DomainCommand::JoinLobby { lobby_id, guest_name } => {
                    let j = new_participant(f.participant_id, guest_name@, LobbyRole::Guest, f.now);
                    crate::domain::lobby::lemma_names_distinct_preserved(
                        s.lobbies[id], j, 0, 0, 0, ParticipationMode::Active);
                },
                DomainCommand::AddParticipant { lobby_id, participant } => {
                    crate::domain::lobby::lemma_names_distinct_preserved(
                        s.lobbies[id], participant@, 0, 0, 0, ParticipationMode::Active);
                },
                DomainCommand::LeaveLobby { lobby_id, participant_id } => {
                    crate::domain::lobby::lemma_names_distinct_preserved(
                        s.lobbies[id], g, participant_id, 0, 0, ParticipationMode::Active);
                },
                DomainCommand::KickGuest { lobby_id, host_id, guest_id } => {
                    crate::domain::lobby::lemma_names_distinct_preserved(
                        s.lobbies[id], g, guest_id, host_id, 0, ParticipationMode::Active);
                },
                DomainCommand::ToggleParticipationMode { lobby_id, participant_id, requester_id } => {
                    crate::domain::lobby::lemma_names_distinct_preserved(
                        s.lobbies[id], g, participant_id, requester_id, 0, ParticipationMode::Active);
                },
                DomainCommand::DelegateHost { lobby_id, current_host_id, new_host_id } => {
                    crate::domain::lobby::lemma_names_distinct_preserved(
                        s.lobbies[id], g, 0, 0, new_host_id, ParticipationMode::Active);
                },
                DomainCommand::UpdateParticipantMode { lobby_id, participant_id, new_mode } => {
                    crate::domain::lobby::lemma_names_distinct_preserved(
                        s.lobbies[id], g, participant_id, 0, 0, new_mode);
                },
                _ => {},
            }
        }
    }
}

/// A lobby's active run is set exactly while that run is in progress:
/// every lobby's active run is a run of that lobby in progress, and every
/// run in progress belongs to a lobby whose active run it is.
pub open spec fn runs_consistent(s: LoopView) -> bool {
    &&& forall|k: Uuid|
        #[trigger] s.lobbies.contains_key(k) && s.lobbies[k].active_run is Some ==> {
            let r = s.lobbies[k].active_run->0;
            &&& s.runs.contains_key(r)
            &&& s.runs[r].lobby_id == k
            &&& s.runs[r].status == RunStatus::InProgress
        }
    &&& forall|r: Uuid|
        #[trigger] s.runs.contains_key(r) && s.runs[r].status == RunStatus::InProgress ==> {
            &&& s.lobbies.contains_key(s.runs[r].lobby_id)
            &&& s.lobbies[s.runs[r].lobby_id].active_run == Some(r)
        }
}

/// Every command keeps each lobby's active run in step with the runs in
/// progress, as long as the lobby or run it creates has an id not yet in
/// use (a new lobby or run under a used id replaces the one there), and a
/// command that ends a run names the run's own lobby (the lobby named is
/// the one whose active run is cleared).
pub proof fn lemma_step_keeps_runs_consistent(s: LoopView, c: DomainCommand, f: Fresh)
    requires
        runs_consistent(s),
        c is StartNextRun ==> !s.runs.contains_key(f.run_id),
        c matches DomainCommand::SyncRunStarted { run_id, .. } ==> !s.runs.contains_key(run_id),
        c matches DomainCommand::SubmitResult { lobby_id, run_id, .. } ==> (s.runs.contains_key(run_id)
            ==> s.runs[run_id].lobby_id == lobby_id),
        c matches DomainCommand::CancelRun { lobby_id, run_id } ==> (s.runs.contains_key(run_id)
            ==> s.runs[run_id].lobby_id == lobby_id),
        c matches DomainCommand::RemoveSubmitter { lobby_id, run_id, .. } ==> (s.runs.contains_key(run_id)
            ==> s.runs[run_id].lobby_id == lobby_id),
        c matches DomainCommand::CreateLobby { lobby_id, .. } ==> !s.lobbies.contains_key(
            match lobby_id {
                Some(id) => id,
                None => f.lobby_id,
            },
        ),
        c matches DomainCommand::CreateLobbyWithHost { lobby_id, .. } ==> !s.lobbies.contains_key(lobby_id),
    ensures
        runs_consistent(s.step(c, f).0),
{
    let s2 = s.step(c, f).0;
    match c {
        DomainCommand::SubmitResult { lobby_id, run_id, result } => {
            if s.runs.contains_key(run_id) && s.runs[run_id].lobby_id == lobby_id {
                assert(s.runs.contains_key(run_id));
            }
        },
        DomainCommand::CancelRun { lobby_id, run_id } => {
            if s.runs.contains_key(run_id) && s.runs[run_id].lobby_id == lobby_id {
                assert(s.runs.contains_key(run_id));
            }
        },
        DomainCommand::RemoveSubmitter { lobby_id, run_id, participant_id } => {
            if s.runs.contains_key(run_id) && s.runs[run_id].lobby_id == lobby_id {
                assert(s.runs.contains_key(run_id));
            }
        },
        _ => {},
    }
}

/// Two maps that differ by putting back what was taken are equal.
proof fn lemma_put_back<K, V>(m: Map<K, V>, k: K, v: V)
    requires
        m.contains_key(k),
    ensures
        m.remove(k).insert(k, v) == m.insert(k, v),
        m.insert(k, m[k]) == m,
{
    assert(m.remove(k).insert(k, v) =~= m.insert(k, v));
    assert(m.insert(k, m[k]) =~= m);
}

/// The message for a missing thing of kind `kind` with id `id`.
fn not_found(kind: &str, id: Uuid) -> (s: String)
    ensures
        s@ == not_found_text(kind@, id),
{
    proof {
        reveal_strlit(" ");
        reveal_strlit(" not found");
    }
    String::from_str(kind).concat(" ").concat(uuid_string(id).as_str()).concat(" not found")
}

/// The failure of command `command` for `reason`.
fn fail(command: &str, reason: String) -> (ev: DomainEvent)
    ensures
        ev@ == (DomainEventView::CommandFailed { command: command@, reason: reason@ }),
{
    DomainEvent::CommandFailed { command: String::from_str(command), reason }
}

/// The results of a run, each once, in the map's order.
fn results_list(run: &ActivityRun) -> (v: Vec<ActivityResult>)
    ensures
        lists_results(v@, run@.results),
{
    let m = run.results();
    let keys = crate::keys::map_keys(m);
    let mut v: Vec<ActivityResult> = Vec::new();
    let mut i: usize = 0;
    while i < keys.len()
        invariant
            i <= keys@.len(),
            m@ == run@.results,
            keys@.no_duplicates(),
            keys@.to_set() == m@.dom(),
            v@.len() == i,
            forall|j: int| 0 <= j < i ==> #[trigger] v@[j] == m@[keys@[j]],
        decreases keys.len() - i,
    {
        let k = keys[i];
        proof {
            assert(keys@.to_set().contains(k));
        }
        match m.get(&k) {
            Some(r) => {
                v.push(r.clone());
            },
            None => {
                proof {
                    assert(false);
                }
            },
        }
        i += 1;
    }
    proof {
        assert(lists_results(v@, run@.results)) by {
            assert(keys@.len() == v@.len());
        }
    }
    v
}

/// The ids in a vector, as a set.
fn vec_to_set(v: &Vec<Uuid>) -> (s: HashSet<Uuid>)
    ensures
        s@ == v@.to_set(),
{
    let mut s: HashSet<Uuid> = HashSet::new();
    let mut i: usize = 0;
    while i < v.len()
        invariant
            i <= v@.len(),
            s@ == v@.take(i as int).to_set(),
        decreases v.len() - i,
    {
        proof {
            assert(v@.take(i + 1) =~= v@.take(i as int).push(v@[i as int]));
            v@.take(i as int).lemma_push_to_set_commute(v@[i as int]);
        }
        s.insert(v[i]);
        i += 1;
    }
    proof {
        assert(v@.take(v@.len() as int) =~= v@);
    }
    s
}

/// The lobbies and runs of the domain; each command is answered with one event.
#[derive(Debug)]
pub struct DomainEventLoop {
    lobbies: HashMap<Uuid, Lobby>,
    runs: HashMap<ActivityRunId, ActivityRun>,
}

impl View for DomainEventLoop {
    type V = LoopView;

    closed spec fn view(&self) -> LoopView {
        LoopView {
            lobbies: self.lobbies@.map_values(|l: Lobby| l@),
            runs: self.runs@.map_values(|r: ActivityRun| r@),
        }
    }
}

impl Default for DomainEventLoop {
    fn default() -> (l: Self)
        ensures
            l@.lobbies == Map::<Uuid, LobbyView>::empty(),
            l@.runs == Map::<ActivityRunId, ActivityRunView>::empty(),
    {
        Self::new()
    }
}

impl DomainEventLoop {
    /// An event loop with no lobbies and no runs.
    pub fn new() -> (l: Self)
        ensures
            l@.lobbies == Map::<Uuid, LobbyView>::empty(),
            l@.runs == Map::<ActivityRunId, ActivityRunView>::empty(),
    {
        let l = DomainEventLoop { lobbies: HashMap::new(), runs: HashMap::new() };
        assert(l@.lobbies =~= Map::<Uuid, LobbyView>::empty());
        assert(l@.runs =~= Map::<ActivityRunId, ActivityRunView>::empty());
        l
    }

    fn take_lobby(&mut self, id: Uuid) -> (r: Option<Lobby>)
        ensures
            match r {
                None => !old(self)@.lobbies.contains_key(id) && final(self)@ == old(self)@,
                Some(l) => old(self)@.lobbies.contains_key(id) && l@ == old(self)@.lobbies[id]
                    && final(self)@ == (LoopView {
                    lobbies: old(self)@.lobbies.remove(id),
                    ..old(self)@
                }),
            },
    {
        let ghost old_map = self.lobbies@;
        let r = self.lobbies.remove(&id);
        proof {
            assert(self.lobbies@.map_values(|l: Lobby| l@) =~= old_map.map_values(|l: Lobby| l@).remove(id));
            if r is None {
                assert(self.lobbies@ =~= old_map);
            }
        }
        r
    }

    fn put_lobby(&mut self, id: Uuid, l: Lobby)
        ensures
            final(self)@ == (LoopView { lobbies: old(self)@.lobbies.insert(id, l@), ..old(self)@ }),
    {
        let ghost old_map = self.lobbies@;
        self.lobbies.insert(id, l);
        proof {
            assert(self.lobbies@.map_values(|l: Lobby| l@) =~= old_map.map_values(|l: Lobby| l@).insert(id, l@));
        }
    }

    fn take_run(&mut self, id: ActivityRunId) -> (r: Option<ActivityRun>)
        ensures
            match r {
                None => !old(self)@.runs.contains_key(id) && final(self)@ == old(self)@,
                Some(run) => old(self)@.runs.contains_key(id) && run@ == old(self)@.runs[id]
                    && final(self)@ == (LoopView { runs: old(self)@.runs.remove(id), ..old(self)@ }),
            },
    {
        let ghost old_map = self.runs@;
        let r = self.runs.remove(&id);
        proof {
            assert(self.runs@.map_values(|r: ActivityRun| r@) =~= old_map.map_values(|r: ActivityRun| r@).remove(id));
            if r is None {
                assert(self.runs@ =~= old_map);
            }
        }
        r
    }

    fn put_run(&mut self, id: ActivityRunId, run: ActivityRun)
        ensures
            final(self)@ == (LoopView { runs: old(self)@.runs.insert(id, run@), ..old(self)@ }),
    {
        let ghost old_map = self.runs@;
        self.runs.insert(id, run);
        proof {
            assert(self.runs@.map_values(|r: ActivityRun| r@) =~= old_map.map_values(|r: ActivityRun| r@).insert(id, run@));
        }
    }

    /// Clears the active run of lobby `id`, if that lobby exists.
    fn clear_run_of(&mut self, id: Uuid)
        ensures
            final(self)@ == old(self)@.clear_run_of(id),
    {
        match self.take_lobby(id) {
            None => {},
            Some(mut l) => {
                l.clear_active_run();
                self.put_lobby(id, l);
                proof {
                    lemma_put_back(old(self)@.lobbies, id, l@);
                }
            },
        }
    }

    /// Answers `command`, with `fresh` as the values that chance and the
    /// clock give: the state and event follow `step` exactly.
    pub fn handle_command_with(&mut self, command: DomainCommand, fresh: Fresh) -> (ev: DomainEvent)
        ensures
            final(self)@ == old(self)@.step(command, fresh).0,
            fits(ev@, old(self)@.step(command, fresh).1),
    {
        match command {
            DomainCommand::CreateLobby { lobby_id, lobby_name, host_name } => self.handle_create_lobby(
                lobby_id,
                lobby_name,
                host_name,
                fresh,
            ),
            DomainCommand::CreateLobbyWithHost { lobby_id, lobby_name, host } =>
                self.handle_create_lobby_with_host(lobby_id, lobby_name, host, fresh),
            DomainCommand::JoinLobby { lobby_id, guest_name } => self.handle_join_lobby(
                lobby_id,
                guest_name,
                fresh,
            ),
            DomainCommand::LeaveLobby { lobby_id, participant_id } => self.handle_leave_lobby(
                lobby_id,
                participant_id,
                fresh,
            ),
            DomainCommand::KickGuest { lobby_id, host_id, guest_id } => self.handle_kick_guest(
                lobby_id,
                host_id,
                guest_id,
                fresh,
            ),
            DomainCommand::ToggleParticipationMode { lobby_id, participant_id, requester_id } =>
                self.handle_toggle_participation_mode(lobby_id, participant_id, requester_id, fresh),
            DomainCommand::DelegateHost { lobby_id, current_host_id, new_host_id } =>
                self.handle_delegate_host(lobby_id, current_host_id, new_host_id, fresh),
            DomainCommand::AddParticipant { lobby_id, participant } => self.handle_add_participant(
                lobby_id,
                participant,
                fresh,
            ),
            DomainCommand::UpdateParticipantMode { lobby_id, participant_id, new_mode } =>
                self.handle_update_participant_mode(lobby_id, participant_id, new_mode, fresh),
            DomainCommand::QueueActivity { lobby_id, config } => self.handle_queue_activity(
                lobby_id,
                config,
                fresh,
            ),
            DomainCommand::StartNextRun { lobby_id } => self.handle_start_next_run(lobby_id, fresh),
            DomainCommand::SubmitResult { lobby_id, run_id, result } => self.handle_submit_result(
                lobby_id,
                run_id,
                result,
                fresh,
            ),
            DomainCommand::CancelRun { lobby_id, run_id } => self.handle_cancel_run(
                lobby_id,
                run_id,
                fresh,
            ),
            DomainCommand::RemoveSubmitter { lobby_id, run_id, participant_id } =>
                self.handle_remove_submitter(lobby_id, run_id, participant_id, fresh),
            DomainCommand::SyncRunStarted { lobby_id, run_id, config, required_submitters } =>
                self.handle_sync_run_started(lobby_id, run_id, config, required_submitters, fresh),
        }
    }

    /// Answers `command`, drawing fresh random ids and reading the clock
    /// where the command needs them: the state and event follow `step` for
    /// some fresh values.
    pub fn handle_command(&mut self, command: DomainCommand) -> (ev: DomainEvent)
        ensures
            exists|f: Fresh|
                final(self)@ == old(self)@.step(command, f).0 && fits(
                    ev@,
                    #[trigger] old(self)@.step(command, f).1,
                ),
    {
        let f = Fresh::draw();
        self.handle_command_with(command, f)
    }

    fn handle_create_lobby(
        &mut self,
        lobby_id: Option<Uuid>,
        lobby_name: String,
        host_name: String,
        f: Fresh,
    ) -> (ev: DomainEvent)
        ensures
            ({
                let (s, a) = old(self)@.step(
                    DomainCommand::CreateLobby { lobby_id, lobby_name, host_name },
                    f,
                );
                final(self)@ == s && fits(ev@, a)
            }),
    {
        proof {
            reveal_strlit("CreateLobby");
        }
        match Participant::create(f.participant_id, host_name, LobbyRole::Host, f.now) {
            Err(e) => fail("CreateLobby", e.message()),
            Ok(host) => {
                let id = match lobby_id {
                    Some(id) => id,
                    None => f.lobby_id,
                };
                match Lobby::with_id(id, lobby_name, host) {
                    Ok(lobby) => {
                        self.put_lobby(id, lobby.clone());
                        DomainEvent::LobbyCreated { lobby }
                    },
                    Err(e) => fail("CreateLobby", e.message()),
                }
            },
        }
    }

    fn handle_create_lobby_with_host(
        &mut self,
        lobby_id: Uuid,
        lobby_name: String,
        host: Participant,
        f: Fresh,
    ) -> (ev: DomainEvent)
        ensures
            ({
                let (s, a) = old(self)@.step(
                    DomainCommand::CreateLobbyWithHost { lobby_id, lobby_name, host },
                    f,
                );
                final(self)@ == s && fits(ev@, a)
            }),
    {
        match Lobby::with_id(lobby_id, lobby_name, host) {
            Ok(lobby) => {
                self.put_lobby(lobby.id(), lobby.clone());
                DomainEvent::LobbyCreated { lobby }
            },
            Err(e) => fail("CreateLobbyWithHost", e.message()),
        }
    }

    fn handle_join_lobby(&mut self, lobby_id: Uuid, guest_name: String, f: Fresh) -> (ev: DomainEvent)
        ensures
            ({
                let (s, a) = old(self)@.step(DomainCommand::JoinLobby { lobby_id, guest_name }, f);
                final(self)@ == s && fits(ev@, a)
            }),
    {
        let mut lobby = match self.take_lobby(lobby_id) {
            None => {
                return fail("JoinLobby", not_found("Lobby", lobby_id));
            },
            Some(l) => l,
        };
        proof {
            reveal_strlit("Lobby");
        }
        match Participant::create(f.participant_id, guest_name, LobbyRole::Guest, f.now) {
            Err(e) => {
                self.put_lobby(lobby_id, lobby);
                proof {
                    lemma_put_back(old(self)@.lobbies, lobby_id, old(self)@.lobbies[lobby_id]);
                }
                fail("JoinLobby", e.message())
            },
            Ok(guest) => {
                let r = lobby.add_guest(guest.clone());
                self.put_lobby(lobby_id, lobby);
                proof {
                    lemma_put_back(old(self)@.lobbies, lobby_id, lobby@);
                }
                match r {
                    Ok(_) => DomainEvent::GuestJoined { lobby_id, participant: guest },
                    Err(e) => fail("JoinLobby", e.message()),
                }
            },
        }
    }

    fn handle_leave_lobby(&mut self, lobby_id: Uuid, participant_id: Uuid, f: Fresh) -> (ev:
        DomainEvent)
        ensures
            ({
                let (s, a) = old(self)@.step(
                    DomainCommand::LeaveLobby { lobby_id, participant_id },
                    f,
                );
                final(self)@ == s && fits(ev@, a)
            }),
    {
        let mut lobby = match self.take_lobby(lobby_id) {
            None => {
                return fail("LeaveLobby", not_found("Lobby", lobby_id));
            },
            Some(l) => l,
        };
        let r = lobby.remove_participant(participant_id);
        self.put_lobby(lobby_id, lobby);
        proof {
            lemma_put_back(old(self)@.lobbies, lobby_id, lobby@);
        }
        match r {
            Ok(_) => DomainEvent::GuestLeft { lobby_id, participant_id },
            Err(e) => fail("LeaveLobby", e.message()),
        }
    }

    fn handle_kick_guest(&mut self, lobby_id: Uuid, host_id: Uuid, guest_id: Uuid, f: Fresh) -> (ev:
        DomainEvent)
        ensures
            ({
                let (s, a) = old(self)@.step(
                    DomainCommand::KickGuest { lobby_id, host_id, guest_id },
                    f,
                );
                final(self)@ == s && fits(ev@, a)
            }),
    {
        let mut lobby = match self.take_lobby(lobby_id) {
            None => {
                return fail("KickGuest", not_found("Lobby", lobby_id));
            },
            Some(l) => l,
        };
        let r = lobby.kick_guest(guest_id, host_id);
        self.put_lobby(lobby_id, lobby);
        proof {
            lemma_put_back(old(self)@.lobbies, lobby_id, lobby@);
        }
        match r {
            Ok(_) => DomainEvent::GuestKicked { lobby_id, participant_id: guest_id, kicked_by: host_id },
            Err(e) => fail("KickGuest", e.message()),
        }
    }

    fn handle_toggle_participation_mode(
        &mut self,
        lobby_id: Uuid,
        participant_id: Uuid,
        requester_id: Uuid,
        f: Fresh,
    ) -> (ev: DomainEvent)
        ensures
            ({
                let (s, a) = old(self)@.step(
                    DomainCommand::ToggleParticipationMode { lobby_id, participant_id, requester_id },
                    f,
                );
                final(self)@ == s && fits(ev@, a)
            }),
    {
        let mut lobby = match self.take_lobby(lobby_id) {
            None => {
                return fail("ToggleParticipationMode", not_found("Lobby", lobby_id));
            },
            Some(l) => l,
        };
        let r = lobby.toggle_participation_mode(participant_id, requester_id);
        self.put_lobby(lobby_id, lobby);
        proof {
            lemma_put_back(old(self)@.lobbies, lobby_id, lobby@);
        }
        match r {
            Ok(new_mode) => DomainEvent::ParticipationModeChanged { lobby_id, participant_id, new_mode },
            Err(e) => fail("ToggleParticipationMode", e.message()),
        }
    }

    fn handle_delegate_host(
        &mut self,
        lobby_id: Uuid,
        current_host_id: Uuid,
        new_host_id: Uuid,
        f: Fresh,
    ) -> (ev: DomainEvent)
        ensures
            ({
                let (s, a) = old(self)@.step(
                    DomainCommand::DelegateHost { lobby_id, current_host_id, new_host_id },
                    f,
                );
                final(self)@ == s && fits(ev@, a)
            }),
    {
        let mut lobby = match self.take_lobby(lobby_id) {
            None => {
                return fail("DelegateHost", not_found("Lobby", lobby_id));
            },
            Some(l) => l,
        };
        let old_host_id = lobby.host_id();
        let r = lobby.delegate_host(new_host_id);
        self.put_lobby(lobby_id, lobby);
        proof {
            lemma_put_back(old(self)@.lobbies, lobby_id, lobby@);
        }
        match r {
            Ok(_) => DomainEvent::HostDelegated { lobby_id, from: old_host_id, to: new_host_id },
            Err(e) => fail("DelegateHost", e.message()),
        }
    }

    fn handle_add_participant(&mut self, lobby_id: Uuid, participant: Participant, f: Fresh) -> (ev:
        DomainEvent)
        ensures
            ({
                let (s, a) = old(self)@.step(
                    DomainCommand::AddParticipant { lobby_id, participant },
                    f,
                );
                final(self)@ == s && fits(ev@, a)
            }),
    {
        let mut lobby = match self.take_lobby(lobby_id) {
            None => {
                return fail("AddParticipant", not_found("Lobby", lobby_id));
            },
            Some(l) => l,
        };
        let r = lobby.add_guest(participant.clone());
        self.put_lobby(lobby_id, lobby);
        proof {
            lemma_put_back(old(self)@.lobbies, lobby_id, lobby@);
        }
        match r {
            Ok(_) => DomainEvent::GuestJoined { lobby_id, participant },
            Err(e) => fail("AddParticipant", e.message()),
        }
    }

    fn handle_update_participant_mode(
        &mut self,
        lobby_id: Uuid,
        participant_id: Uuid,
        new_mode: ParticipationMode,
        f: Fresh,
    ) -> (ev: DomainEvent)
        ensures
            ({
                let (s, a) = old(self)@.step(
                    DomainCommand::UpdateParticipantMode { lobby_id, participant_id, new_mode },
                    f,
                );
                final(self)@ == s && fits(ev@, a)
            }),
    {
        let mut lobby = match self.take_lobby(lobby_id) {
            None => {
                return fail("UpdateParticipantMode", not_found("Lobby", lobby_id));
            },
            Some(l) => l,
        };
        let r = lobby.set_participant_mode(participant_id, new_mode);
        self.put_lobby(lobby_id, lobby);
        proof {
            lemma_put_back(old(self)@.lobbies, lobby_id, lobby@);
        }
        match r {
            Ok(_) => DomainEvent::ParticipationModeChanged { lobby_id, participant_id, new_mode },
            Err(_) => fail("UpdateParticipantMode", not_found("Participant", participant_id)),
        }
    }

    fn handle_queue_activity(&mut self, lobby_id: Uuid, config: ActivityConfig, f: Fresh) -> (ev:
        DomainEvent)
        ensures
            ({
                let (s, a) = old(self)@.step(DomainCommand::QueueActivity { lobby_id, config }, f);
                final(self)@ == s && fits(ev@, a)
            }),
    {
        let mut lobby = match self.take_lobby(lobby_id) {
            None => {
                return fail("QueueActivity", not_found("Lobby", lobby_id));
            },
            Some(l) => l,
        };
        let r = lobby.queue_activity(config.clone());
        self.put_lobby(lobby_id, lobby);
        proof {
            lemma_put_back(old(self)@.lobbies, lobby_id, lobby@);
        }
        match r {
            Ok(_) => DomainEvent::ActivityQueued { lobby_id, config },
            Err(e) => fail("QueueActivity", e.message()),
        }
    }

    fn handle_start_next_run(&mut self, lobby_id: Uuid, f: Fresh) -> (ev: DomainEvent)
        ensures
            ({
                let (s, a) = old(self)@.step(DomainCommand::StartNextRun { lobby_id }, f);
                final(self)@ == s && fits(ev@, a)
            }),
    {
        let mut lobby = match self.take_lobby(lobby_id) {
            None => {
                return fail("StartNextRun", not_found("Lobby", lobby_id));
            },
            Some(l) => l,
        };
        let snapshot = lobby.active_participant_ids();
        let config = match lobby.dequeue_next_activity() {
            Ok(c) => c,
            Err(e) => {
                self.put_lobby(lobby_id, lobby);
                proof {
                    lemma_put_back(old(self)@.lobbies, lobby_id, lobby@);
                }
                return fail("StartNextRun", e.message());
            },
        };
        let run_id = f.run_id;
        let run = ActivityRun::new(run_id, lobby_id, config.clone(), snapshot);
        let r = lobby.set_active_run(run_id);
        self.put_lobby(lobby_id, lobby);
        proof {
            lemma_put_back(old(self)@.lobbies, lobby_id, lobby@);
        }
        match r {
            Err(e) => fail("StartNextRun", e.message()),
            Ok(_) => {
                self.put_run(run_id, run);
                DomainEvent::RunStarted { lobby_id, run_id, config }
            },
        }
    }

    fn handle_submit_result(
        &mut self,
        lobby_id: Uuid,
        run_id: ActivityRunId,
        result: ActivityResult,
        f: Fresh,
    ) -> (ev: DomainEvent)
        ensures
            ({
                let (s, a) = old(self)@.step(
                    DomainCommand::SubmitResult { lobby_id, run_id, result },
                    f,
                );
                final(self)@ == s && fits(ev@, a)
            }),
    {
        let mut run = match self.take_run(run_id) {
            None => {
                return fail("SubmitResult", not_found("Run", run_id));
            },
            Some(r) => r,
        };
        let r = run.submit_result(result.clone());
        let ev = match r {
            Ok(completed) => {
                if completed {
                    let results = results_list(&run);
                    let status = run.status();
                    DomainEvent::RunEnded { lobby_id, run_id, status, results }
                } else {
                    DomainEvent::ResultSubmitted { lobby_id, run_id, result }
                }
            },
            Err(e) => fail("SubmitResult", e.message()),
        };
        self.put_run(run_id, run);
        proof {
            lemma_put_back(old(self)@.runs, run_id, run@);
        }
        match r {
            Ok(true) => {
                self.clear_run_of(lobby_id);
            },
            _ => {},
        }
        ev
    }

    fn handle_cancel_run(&mut self, lobby_id: Uuid, run_id: ActivityRunId, f: Fresh) -> (ev:
        DomainEvent)
        ensures
            ({
                let (s, a) = old(self)@.step(DomainCommand::CancelRun { lobby_id, run_id }, f);
                final(self)@ == s && fits(ev@, a)
            }),
    {
        let mut run = match self.take_run(run_id) {
            None => {
                return fail("CancelRun", not_found("Run", run_id));
            },
            Some(r) => r,
        };
        let r = run.cancel();
        let ev = match r {
            Ok(_) => {
                let results = results_list(&run);
                let status = run.status();
                DomainEvent::RunEnded { lobby_id, run_id, status, results }
            },
            Err(e) => fail("CancelRun", e.message()),
        };
        self.put_run(run_id, run);
        proof {
            lemma_put_back(old(self)@.runs, run_id, run@);
        }
        match r {
            Ok(_) => {
                self.clear_run_of(lobby_id);
            },
            _ => {},
        }
        ev
    }

    fn handle_remove_submitter(
        &mut self,
        lobby_id: Uuid,
        run_id: ActivityRunId,
        participant_id: Uuid,
        f: Fresh,
    ) -> (ev: DomainEvent)
        ensures
            ({
                let (s, a) = old(self)@.step(
                    DomainCommand::RemoveSubmitter { lobby_id, run_id, participant_id },
                    f,
                );
                final(self)@ == s && fits(ev@, a)
            }),
    {
        let mut run = match self.take_run(run_id) {
            None => {
                return fail("RemoveSubmitter", not_found("Run", run_id));
            },
            Some(r) => r,
        };
        let r = run.remove_submitter(participant_id);
        let ev = match r {
            Ok(ended) => {
                if ended {
                    let results = results_list(&run);
                    let status = run.status();
                    DomainEvent::RunEnded { lobby_id, run_id, status, results }
                } else {
                    DomainEvent::SubmitterRemoved { lobby_id, run_id, participant_id }
                }
            },
            Err(e) => fail("RemoveSubmitter", e.message()),
        };
        self.put_run(run_id, run);
        proof {
            lemma_put_back(old(self)@.runs, run_id, run@);
        }
        match r {
            Ok(true) => {
                self.clear_run_of(lobby_id);
            },
            _ => {},
        }
        ev
    }

    fn handle_sync_run_started(
        &mut self,
        lobby_id: Uuid,
        run_id: ActivityRunId,
        config: ActivityConfig,
        required_submitters: Vec<Uuid>,
        f: Fresh,
    ) -> (ev: DomainEvent)
        ensures
            ({
                let (s, a) = old(self)@.step(
                    DomainCommand::SyncRunStarted { lobby_id, run_id, config, required_submitters },
                    f,
                );
                final(self)@ == s && fits(ev@, a)
            }),
    {
        let mut lobby = match self.take_lobby(lobby_id) {
            None => {
                return fail("SyncRunStarted", not_found("Lobby", lobby_id));
            },
            Some(l) => l,
        };
        let snapshot = vec_to_set(&required_submitters);
        let run = ActivityRun::new(run_id, lobby_id, config.clone(), snapshot);
        let r = lobby.set_active_run(run_id);
        self.put_lobby(lobby_id, lobby);
        proof {
            lemma_put_back(old(self)@.lobbies, lobby_id, lobby@);
        }
        match r {
            Err(e) => fail("SyncRunStarted", e.message()),
            Ok(_) => {
                self.put_run(run_id, run);
                DomainEvent::RunStarted { lobby_id, run_id, config }
            },
        }
    }

    /// Adds (or replaces) a lobby under its id.
    pub fn add_lobby(&mut self, lobby: Lobby)
        ensures
            final(self)@ == old(self)@.put_lobby(lobby@.id, lobby@),
    {
        let id = lobby.id();
        self.put_lobby(id, lobby);
    }

    /// The lobby with this id, if any.
    pub fn get_lobby(&self, lobby_id: &Uuid) -> (l: Option<&Lobby>)
        ensures
            match l {
                Some(l) => self@.lobbies.contains_key(*lobby_id) && l@ == self@.lobbies[*lobby_id],
                None => !self@.lobbies.contains_key(*lobby_id),
            },
    {
        self.lobbies.get(lobby_id)
    }

    /// The run with this id, if any.
    pub fn get_run(&self, run_id: &ActivityRunId) -> (r: Option<&ActivityRun>)
        ensures
            match r {
                Some(r) => self@.runs.contains_key(*run_id) && r@ == self@.runs[*run_id],
                None => !self@.runs.contains_key(*run_id),
            },
    {
        self.runs.get(run_id)
    }

    /// How many lobbies the loop holds.
    pub fn lobby_count(&self) -> (n: usize)
        ensures
            n == self@.lobbies.dom().len(),
    {
        proof {
            assert(self@.lobbies.dom() =~= self.lobbies@.dom());
        }
        self.lobbies.len()
    }
}

} // verus!
