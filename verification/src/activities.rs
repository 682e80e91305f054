//! Activities that lobbies run: the trait that applications implement, and
//! the echo challenge, the simplest activity.

use vstd::prelude::*;

verus! {

/// Why an activity refused a configuration or a result.
#[derive(Debug)]
pub enum ActivityError {
    InvalidConfig(String),
    InvalidResult(String),
    Serialization(serde_json::Error),
}

/// What applications implement for their activities.
pub trait Activity: Send + Sync {
    /// A unique type identifier (such as "trivia-quiz-v1"), stable across
    /// versions.
    fn activity_type(&self) -> &str;

    /// A human-readable name.
    fn name(&self) -> &str;

    /// The configuration as JSON.
    fn serialize_config(&self) -> Result<serde_json::Value, ActivityError>;

    /// The activity for a JSON configuration.
    fn deserialize_config(config: serde_json::Value) -> Result<Self, ActivityError> where
        Self: Sized,
    ;

    /// Checks a submitted result; by default every result is valid.
    fn validate_result(&self, result: &serde_json::Value) -> (r: Result<(), ActivityError>)
        default_ensures
            r is Ok,
    {
        Ok(())
    }

    /// The score of a submitted result; by default there is none.
    fn calculate_score(&self, result: &serde_json::Value) -> (s: Option<u32>)
        default_ensures
            s is None,
    {
        None
    }
}

/// The identifier of the echo challenge.
pub open spec fn echo_type() -> Seq<char> {
    "echo-challenge-v1"@
}

/// Participants get a prompt and must echo it back: 100 points for the
/// exact text (case matters), 0 otherwise.
#[derive(Debug)]
pub struct EchoChallenge {
    /// The word or phrase to echo.
    pub prompt: String,
    /// An optional time limit in milliseconds.
    pub time_limit_ms: Option<u64>,
}

impl EchoChallenge {
    pub fn new(prompt: String) -> (c: Self)
        ensures
            c.prompt == prompt,
            c.time_limit_ms is None,
    {
        EchoChallenge { prompt, time_limit_ms: None }
    }

    /// The same challenge with a time limit.
    pub fn with_time_limit(self, ms: u64) -> (c: Self)
        ensures
            c.prompt == self.prompt,
            c.time_limit_ms == Some(ms),
    {
        let mut c = self;
        c.time_limit_ms = Some(ms);
        c
    }

    /// The activity type identifier.
    pub fn activity_type() -> (t: &'static str)
        ensures
            t@ == echo_type(),
    {
        "echo-challenge-v1"
    }

    /// Whether a response echoes the prompt exactly.
    pub fn validate_response(&self, response: &str) -> (b: bool)
        ensures
            b == (response@ == self.prompt@),
    {
        crate::domain::lobby::str_eq(response, self.prompt.as_str())
    }

    /// 100 for an exact echo, 0 otherwise.
    pub fn calculate_score(&self, response: &str) -> (s: u32)
        ensures
            s == (if response@ == self.prompt@ {
                100u32
            } else {
                0u32
            }),
    {
        if self.validate_response(response) {
            100
        } else {
            0
        }
    }
}

/// A response to an echo challenge and the time it took.
#[derive(Debug)]
pub struct EchoResult {
    pub response: String,
    /// Time taken in milliseconds.
    pub time_ms: u64,
}

impl EchoResult {
    pub fn new(response: String, time_ms: u64) -> (r: Self)
        ensures
            r.response == response,
            r.time_ms == time_ms,
    {
        EchoResult { response, time_ms }
    }
}

} // verus!
