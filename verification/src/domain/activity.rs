//! Activity configurations waiting in a lobby's queue, and the results that
//! participants submit for a run.

use vstd::prelude::*;
use crate::ident::{Uuid, random_uuid};
use crate::json::{clone_json, null_json};

verus! {

/// Identifies a queued activity.
pub type ActivityId = Uuid;

/// Value object sitting in the lobby's activity queue; it becomes an
/// `ActivityRun` when the host starts it.
#[derive(Debug, PartialEq)]
pub struct ActivityConfig {
    pub id: ActivityId,
    pub activity_type: String,
    pub name: String,
    /// Game-specific configuration, opaque to the library.
    pub config: serde_json::Value,
}

impl Clone for ActivityConfig {
    fn clone(&self) -> (c: Self)
        ensures
            c == *self,
    {
        ActivityConfig {
            id: self.id,
            activity_type: self.activity_type.clone(),
            name: self.name.clone(),
            config: clone_json(&self.config),
        }
    }
}

impl ActivityConfig {
    /// A configuration with a fresh random id.
    pub fn new(activity_type: String, name: String, config: serde_json::Value) -> (c: Self)
        ensures
            c.activity_type == activity_type,
            c.name == name,
            c.config == config,
    {
        ActivityConfig { id: random_uuid(), activity_type, name, config }
    }

    /// A configuration with the given id.
    pub fn with_id(id: ActivityId, activity_type: String, name: String, config: serde_json::Value) -> (c:
        Self)
        ensures
            c == (ActivityConfig { id, activity_type, name, config }),
    {
        ActivityConfig { id, activity_type, name, config }
    }
}

/// A result submitted by a participant for a run; `data` is opaque, the
/// consuming application owns its concrete type.
#[derive(Debug, PartialEq)]
pub struct ActivityResult {
    pub run_id: Uuid,
    pub participant_id: Uuid,
    pub data: serde_json::Value,
    pub score: Option<u32>,
    pub time_taken_ms: Option<u64>,
}

impl Clone for ActivityResult {
    fn clone(&self) -> (r: Self)
        ensures
            r == *self,
    {
        ActivityResult {
            run_id: self.run_id,
            participant_id: self.participant_id,
            data: clone_json(&self.data),
            score: self.score,
            time_taken_ms: self.time_taken_ms,
        }
    }
}

impl ActivityResult {
    /// A result for `participant_id` in run `run_id`, with JSON `null` as
    /// its data and neither score nor time.
    pub fn new(run_id: Uuid, participant_id: Uuid) -> (r: Self)
        ensures
            r.run_id == run_id,
            r.participant_id == participant_id,
            r.score is None,
            r.time_taken_ms is None,
    {
        ActivityResult {
            run_id,
            participant_id,
            data: null_json(),
            score: None,
            time_taken_ms: None,
        }
    }

    /// The result with `data` in place of its data.
    pub fn with_data(self, data: serde_json::Value) -> (r: Self)
        ensures
            r == (ActivityResult { data, ..self }),
    {
        ActivityResult { data, ..self }
    }

    /// The result with the score set.
    pub fn with_score(self, score: u32) -> (r: Self)
        ensures
            r == (ActivityResult { score: Some(score), ..self }),
    {
        ActivityResult { score: Some(score), ..self }
    }

    /// The result with the time taken set.
    pub fn with_time(self, time_ms: u64) -> (r: Self)
        ensures
            r == (ActivityResult { time_taken_ms: Some(time_ms), ..self }),
    {
        ActivityResult { time_taken_ms: Some(time_ms), ..self }
    }
}

} // verus!
