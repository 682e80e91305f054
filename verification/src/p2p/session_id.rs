//! Identifiers of P2P sessions (one per lobby).

use vstd::prelude::*;
use crate::ident::{Uuid, random_uuid, parse_uuid, uuid_parse, uuid_string, uuid_text};
use crate::p2p::error::P2PError;

verus! {

/// The identifier of a P2P session, by the value of its UUID.
#[derive(Debug, Clone, Copy, PartialEq, Eq, Hash, Structural)]
pub struct SessionId(pub Uuid);

impl SessionId {
    /// A fresh random session id.
    pub fn new() -> (s: Self) {
        SessionId(random_uuid())
    }

    /// Reads a session id from text in a form that the `uuid` crate accepts;
    /// other text gives `InvalidSessionId` with the crate's explanation.
    pub fn parse(s: &str) -> (r: Result<Self, P2PError>)
        ensures
            r is Ok <==> uuid_parse(s@) is Some,
            r matches Ok(id) ==> uuid_parse(s@) == Some(id.0),
            r is Err ==> r matches Err(P2PError::InvalidSessionId(_)),
    {
        Self::from_parse_result(parse_uuid(s))
    }

    /// The session id for the outcome of reading a UUID: its value, or
    /// `InvalidSessionId` with the explanation.
    pub fn from_parse_result(parsed: Result<Uuid, String>) -> (r: Result<Self, P2PError>)
        ensures
            match parsed {
                Ok(v) => r == Ok::<SessionId, P2PError>(SessionId(v)),
                Err(why) => r == Err::<SessionId, P2PError>(P2PError::InvalidSessionId(why)),
            },
    {
        match parsed {
            Ok(v) => Ok(SessionId(v)),
            Err(why) => Err(P2PError::InvalidSessionId(why)),
        }
    }

    /// The id as hyphenated lower-case text.
    pub fn as_str(&self) -> (s: String)
        ensures
            s@ == uuid_text(self.0),
    {
        uuid_string(self.0)
    }

    /// The display text: the id as hyphenated lower-case text.
    pub fn to_string(&self) -> (s: String)
        ensures
            s@ == uuid_text(self.0),
    {
        uuid_string(self.0)
    }

    pub fn inner(&self) -> (id: Uuid)
        ensures
            id == self.0,
    {
        self.0
    }
}

impl Default for SessionId {
    /// A fresh random session id.
    fn default() -> (s: Self) {
        Self::new()
    }
}

} // verus!
