//! Errors of the P2P layer.

use vstd::prelude::*;
use crate::domain::participant::ParticipantError;

verus! {

/// `serde_json::Error`, carried through unread.
#[verifier::external_type_specification]
#[verifier::external_body]
pub struct ExJsonError(serde_json::Error);

/// Errors of the P2P layer.
#[derive(Debug)]
pub enum P2PError {
    ConnectionFailed(String),
    InvalidSessionId(String),
    PeerNotFound(String),
    SendFailed(String),
    ReceiveFailed(String),
    /// A message could not be written or read as JSON.
    Serialization(serde_json::Error),
    ChannelClosed,
    ParticipantError(ParticipantError),
}

/// `r` is the failure to send, with message `text`.
pub open spec fn send_failed<T>(r: Result<T, P2PError>, text: Seq<char>) -> bool {
    match r {
        Err(P2PError::SendFailed(m)) => m@ == text,
        _ => false,
    }
}

/// `r` is the failure of the connection, with message `text`.
pub open spec fn connection_failed<T>(r: Result<T, P2PError>, text: Seq<char>) -> bool {
    match r {
        Err(P2PError::ConnectionFailed(m)) => m@ == text,
        _ => false,
    }
}

impl From<ParticipantError> for P2PError {
    fn from(e: ParticipantError) -> (r: Self) {
        P2PError::ParticipantError(e)
    }
}

impl vstd::std_specs::convert::FromSpecImpl<ParticipantError> for P2PError {
    open spec fn obeys_from_spec() -> bool {
        true
    }

    open spec fn from_spec(e: ParticipantError) -> P2PError {
        P2PError::ParticipantError(e)
    }
}

} // verus!
