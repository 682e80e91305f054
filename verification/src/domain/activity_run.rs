//! One game in progress: who must submit, what was submitted, and its status.

use vstd::prelude::*;
use std::collections::{HashMap, HashSet};
use crate::ident::Uuid;
use crate::domain::activity::{ActivityConfig, ActivityResult};

verus! {

broadcast use vstd::std_specs::hash::group_hash_axioms;

/// Identifies a run.
pub type ActivityRunId = Uuid;

/// Where a run stands.
#[derive(Debug, Clone, Copy, PartialEq, Eq, Structural)]
pub enum RunStatus {
    InProgress,
    Completed,
    Cancelled,
}

/// Why a run refused a submission or a change.
#[derive(Debug, Clone, Copy, PartialEq, Eq, Structural)]
pub enum ActivityRunError {
    /// The participant is not among the required submitters.
    NotARequiredSubmitter(Uuid),
    /// The participant has already submitted.
    DuplicateSubmission(Uuid),
    /// The run is not in progress.
    NotInProgress,
}

impl ActivityRunError {
    /// The error's message.
    pub open spec fn message_spec(self) -> Seq<char> {
        match self {
            ActivityRunError::NotARequiredSubmitter(id) => "Participant not in required submitters: "@
                + crate::ident::uuid_text(id),
            ActivityRunError::DuplicateSubmission(id) => "Participant already submitted: "@
                + crate::ident::uuid_text(id),
            ActivityRunError::NotInProgress => "Run is not in progress"@,
        }
    }

    /// The error's message text.
    pub fn message(&self) -> (s: String)
        ensures
            s@ == self.message_spec(),
    {
        match self {
            ActivityRunError::NotARequiredSubmitter(id) => String::from_str(
                "Participant not in required submitters: ",
            ).concat(crate::ident::uuid_string(*id).as_str()),
            ActivityRunError::DuplicateSubmission(id) => String::from_str(
                "Participant already submitted: ",
            ).concat(crate::ident::uuid_string(*id).as_str()),
            ActivityRunError::NotInProgress => String::from_str("Run is not in progress"),
        }
    }
}

/// What a run is: its identity, lobby and configuration, who must still be
/// heard from, what was submitted, and its status.
pub struct ActivityRunView {
    pub id: ActivityRunId,
    pub lobby_id: Uuid,
    pub config: ActivityConfig,
    pub required: Set<Uuid>,
    pub results: Map<Uuid, ActivityResult>,
    pub status: RunStatus,
}

impl ActivityRunView {
    /// Every required submitter has a result.
    pub open spec fn all_submitted(self) -> bool {
        self.required.subset_of(self.results.dom())
    }
}

/// What `submit_result` answers when `pid` submits to a run in state `run`.
pub open spec fn submit_outcome(run: ActivityRunView, pid: Uuid) -> Result<bool, ActivityRunError> {
    if run.status != RunStatus::InProgress {
        Err(ActivityRunError::NotInProgress)
    } else if !run.required.contains(pid) {
        Err(ActivityRunError::NotARequiredSubmitter(pid))
    } else if run.results.contains_key(pid) {
        Err(ActivityRunError::DuplicateSubmission(pid))
    } else {
        Ok(run.required.subset_of(run.results.dom().insert(pid)))
    }
}

/// The run after `result` is submitted to a run in state `run`: the result
/// is recorded, and the run completes when everybody required has submitted.
pub open spec fn submit_state(run: ActivityRunView, result: ActivityResult) -> ActivityRunView {
    match submit_outcome(run, result.participant_id) {
        Err(_) => run,
        Ok(completed) => ActivityRunView {
            results: run.results.insert(result.participant_id, result),
            status: if completed {
                RunStatus::Completed
            } else {
                run.status
            },
            ..run
        },
    }
}

/// What `remove_submitter` answers when `pid` is removed from a run in state `run`.
pub open spec fn remove_outcome(run: ActivityRunView, pid: Uuid) -> Result<bool, ActivityRunError> {
    if run.status != RunStatus::InProgress {
        Err(ActivityRunError::NotInProgress)
    } else {
        let required = run.required.remove(pid);
        Ok(required.is_empty() || required.subset_of(run.results.dom()))
    }
}

/// The run after `pid` is removed from the required submitters of a run in
/// state `run`: cancelled when nobody is left, completed when everybody
/// left has submitted.
pub open spec fn remove_state(run: ActivityRunView, pid: Uuid) -> ActivityRunView {
    if run.status != RunStatus::InProgress {
        run
    } else {
        let required = run.required.remove(pid);
        ActivityRunView {
            required,
            status: if required.is_empty() {
                RunStatus::Cancelled
            } else if required.subset_of(run.results.dom()) {
                RunStatus::Completed
            } else {
                RunStatus::InProgress
            },
            ..run
        }
    }
}

/// What a run is for: the required submitters never grow; a run that is
/// over (completed or cancelled) changes no more; results are only added,
/// never replaced; and a run completes only once every participant still
/// required has submitted.
pub proof fn lemma_run_laws(run: ActivityRunView, result: ActivityResult, pid: Uuid)
    ensures
        submit_state(run, result).required == run.required,
        remove_state(run, pid).required.subset_of(run.required),
        run.status != RunStatus::InProgress ==> submit_state(run, result) == run && remove_state(run, pid) == run,
        run.results.dom().subset_of(submit_state(run, result).results.dom()),
        forall|k: Uuid| #[trigger] run.results.contains_key(k) ==> submit_state(run, result).results[k] == run.results[k],
        remove_state(run, pid).results == run.results,
        run.status == RunStatus::InProgress && submit_state(run, result).status == RunStatus::Completed
            ==> submit_state(run, result).all_submitted(),
        run.status == RunStatus::InProgress && remove_state(run, pid).status == RunStatus::Completed
            ==> remove_state(run, pid).all_submitted(),
{
    if submit_outcome(run, result.participant_id) is Ok {
        let s = submit_state(run, result);
        assert(s.results.dom() =~= run.results.dom().insert(result.participant_id));
    }
}

/// Aggregate root for one game in progress.
///
/// The required submitters are taken when the run is created and never grow.
/// The run completes when every required submitter has submitted or been
/// removed.
#[derive(Debug, PartialEq)]
pub struct ActivityRun {
    id: ActivityRunId,
    lobby_id: Uuid,
    config: ActivityConfig,
    required_submitters: HashSet<Uuid>,
    results: HashMap<Uuid, ActivityResult>,
    status: RunStatus,
}

impl View for ActivityRun {
    type V = ActivityRunView;

    closed spec fn view(&self) -> ActivityRunView {
        ActivityRunView {
            id: self.id,
            lobby_id: self.lobby_id,
            config: self.config,
            required: self.required_submitters@,
            results: self.results@,
            status: self.status,
        }
    }
}

impl ActivityRun {
    /// A run in progress, with `active_participants` as its required submitters
    /// and no results yet.
    pub fn new(
        id: ActivityRunId,
        lobby_id: Uuid,
        config: ActivityConfig,
        active_participants: HashSet<Uuid>,
    ) -> (run: Self)
        ensures
            run@ == (ActivityRunView {
                id,
                lobby_id,
                config,
                required: active_participants@,
                results: Map::empty(),
                status: RunStatus::InProgress,
            }),
    {
        ActivityRun {
            id,
            lobby_id,
            config,
            required_submitters: active_participants,
            results: HashMap::new(),
            status: RunStatus::InProgress,
        }
    }

    pub fn id(&self) -> (id: ActivityRunId)
        ensures
            id == self@.id,
    {
        self.id
    }

    pub fn lobby_id(&self) -> (id: Uuid)
        ensures
            id == self@.lobby_id,
    {
        self.lobby_id
    }

    pub fn config(&self) -> (c: &ActivityConfig)
        ensures
            *c == self@.config,
    {
        &self.config
    }

    pub fn status(&self) -> (s: RunStatus)
        ensures
            s == self@.status,
    {
        self.status
    }

    pub fn results(&self) -> (r: &HashMap<Uuid, ActivityResult>)
        ensures
            r@ == self@.results,
    {
        &self.results
    }

    pub fn required_submitters(&self) -> (r: &HashSet<Uuid>)
        ensures
            r@ == self@.required,
    {
        &self.required_submitters
    }

    pub fn is_complete(&self) -> (b: bool)
        ensures
            b == (self@.status == RunStatus::Completed),
    {
        match self.status {
            RunStatus::Completed => true,
            _ => false,
        }
    }

    fn is_in_progress(&self) -> (b: bool)
        ensures
            b == (self@.status == RunStatus::InProgress),
    {
        match self.status {
            RunStatus::InProgress => true,
            _ => false,
        }
    }

    /// Whether every required submitter has a result.
    fn all_submitted(&self) -> (b: bool)
        ensures
            b == self@.all_submitted(),
    {
        for id in it: self.required_submitters.iter()
            invariant
                forall|j: int| 0 <= j < it.index@ ==> self.results@.contains_key(*it.seq()[j]),
        {
            if !self.results.contains_key(id) {
                return false;
            }
        }
        true
    }

    /// Submits a result; `Ok(true)` when this submission completed the run.
    ///
    /// Refused, with nothing changed, when the run is not in progress, when the
    /// participant is not a required submitter, or when it has already
    /// submitted (checked in that order).
    pub fn submit_result(&mut self, result: ActivityResult) -> (r: Result<bool, ActivityRunError>)
        ensures
            r == submit_outcome(old(self)@, result.participant_id),
            final(self)@ == submit_state(old(self)@, result),
    {
        if !self.is_in_progress() {
            return Err(ActivityRunError::NotInProgress);
        }
        let participant_id = result.participant_id;
        if !self.required_submitters.contains(&participant_id) {
            return Err(ActivityRunError::NotARequiredSubmitter(participant_id));
        }
        if self.results.contains_key(&participant_id) {
            return Err(ActivityRunError::DuplicateSubmission(participant_id));
        }
        self.results.insert(participant_id, result);
        if self.all_submitted() {
            self.status = RunStatus::Completed;
            return Ok(true);
        }
        Ok(false)
    }

    /// Removes a participant from the required submitters (on disconnect);
    /// `Ok(true)` when this removal ended the run: cancelled when nobody is
    /// left to submit, completed when everybody left has submitted. Refused,
    /// with nothing changed, when the run is not in progress.
    pub fn remove_submitter(&mut self, participant_id: Uuid) -> (r: Result<bool, ActivityRunError>)
        ensures
            r == remove_outcome(old(self)@, participant_id),
            final(self)@ == remove_state(old(self)@, participant_id),
    {
        if !self.is_in_progress() {
            return Err(ActivityRunError::NotInProgress);
        }
        self.required_submitters.remove(&participant_id);
        if self.required_submitters.is_empty() {
            self.status = RunStatus::Cancelled;
            return Ok(true);
        }
        if self.all_submitted() {
            self.status = RunStatus::Completed;
            return Ok(true);
        }
        Ok(false)
    }

    /// Cancels a run in progress; refused, with nothing changed, otherwise.
    pub fn cancel(&mut self) -> (r: Result<(), ActivityRunError>)
        ensures
            old(self)@.status == RunStatus::InProgress ==> r is Ok && final(self)@ == (
            ActivityRunView { status: RunStatus::Cancelled, ..old(self)@ }),
            old(self)@.status != RunStatus::InProgress ==> r == Err::<(), ActivityRunError>(
                ActivityRunError::NotInProgress,
            ) && final(self)@ == old(self)@,
    {
        if !self.is_in_progress() {
            return Err(ActivityRunError::NotInProgress);
        }
        self.status = RunStatus::Cancelled;
        Ok(())
    }
}

} // verus!
