//! Events of the lobby domain, as they are announced to others.

use vstd::prelude::*;
use crate::ident::Uuid;
use crate::domain::participant::{Participant, ParticipationMode};
use crate::domain::activity::{ActivityConfig, ActivityResult};
use crate::domain::activity_run::{ActivityRunId, RunStatus};

verus! {

/// A change to a lobby or a run, tagged with the lobby it belongs to.
#[derive(Debug, PartialEq)]
pub enum DomainEvent {
    ParticipantJoined { lobby_id: Uuid, participant: Participant },
    ParticipantLeft { lobby_id: Uuid, participant_id: Uuid },
    ParticipantKicked { lobby_id: Uuid, participant_id: Uuid },
    HostDelegated { lobby_id: Uuid, old_host_id: Uuid, new_host_id: Uuid },
    ParticipationModeChanged { lobby_id: Uuid, participant_id: Uuid, new_mode: ParticipationMode },
    ActivityQueued { lobby_id: Uuid, config: ActivityConfig },
    RunStarted { lobby_id: Uuid, run_id: ActivityRunId, config: ActivityConfig },
    ResultSubmitted { lobby_id: Uuid, run_id: ActivityRunId, result: ActivityResult },
    SubmitterRemoved { lobby_id: Uuid, run_id: ActivityRunId, participant_id: Uuid },
    RunEnded {
        lobby_id: Uuid,
        run_id: ActivityRunId,
        status: RunStatus,
        results: Vec<ActivityResult>,
    },
}

} // verus!
