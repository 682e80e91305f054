//! Participants of a lobby: their role, participation mode and join time.

use vstd::prelude::*;
use crate::ident::{Uuid, random_uuid};
use crate::text::{decimal, decimal_string};
use crate::clock::now_millis;

verus! {

/// Role within the lobby; it decides authority and permissions.
#[derive(Debug, Clone, Copy, PartialEq, Eq, Structural)]
pub enum LobbyRole {
    /// Can manage the lobby, kick guests, start activities, delegate the role.
    Host,
    /// Regular participant without management privileges.
    Guest,
}

impl LobbyRole {
    /// The role's name: "Host" or "Guest".
    pub open spec fn name_spec(self) -> Seq<char> {
        match self {
            LobbyRole::Host => seq!['H', 'o', 's', 't'],
            LobbyRole::Guest => seq!['G', 'u', 'e', 's', 't'],
        }
    }

    /// The role's display text.
    pub fn to_string(&self) -> (s: String)
        ensures
            s@ == self.name_spec(),
    {
        match self {
            LobbyRole::Host => {
                proof {
                    reveal_strlit("Host");
                }
                String::from_str("Host")
            },
            LobbyRole::Guest => {
                proof {
                    reveal_strlit("Guest");
                }
                String::from_str("Guest")
            },
        }
    }
}

/// Participation mode: whether a participant plays activities or only watches.
#[derive(Debug, Clone, Copy, PartialEq, Eq, Structural)]
pub enum ParticipationMode {
    /// Can take part in activities and submit results.
    Active,
    /// View-only; cannot submit results.
    Spectating,
}

impl ParticipationMode {
    /// The mode's name: "Active" or "Spectating".
    pub open spec fn name_spec(self) -> Seq<char> {
        match self {
            ParticipationMode::Active => seq!['A', 'c', 't', 'i', 'v', 'e'],
            ParticipationMode::Spectating => seq![
                'S',
                'p',
                'e',
                'c',
                't',
                'a',
                't',
                'i',
                'n',
                'g',
            ],
        }
    }

    /// The other mode.
    pub open spec fn flipped(self) -> ParticipationMode {
        match self {
            ParticipationMode::Active => ParticipationMode::Spectating,
            ParticipationMode::Spectating => ParticipationMode::Active,
        }
    }

    /// The mode's display text.
    pub fn to_string(&self) -> (s: String)
        ensures
            s@ == self.name_spec(),
    {
        match self {
            ParticipationMode::Active => {
                proof {
                    reveal_strlit("Active");
                }
                String::from_str("Active")
            },
            ParticipationMode::Spectating => {
                proof {
                    reveal_strlit("Spectating");
                }
                String::from_str("Spectating")
            },
        }
    }
}

impl Default for ParticipationMode {
    /// New guests join in Active mode.
    fn default() -> (m: Self)
        ensures
            m == ParticipationMode::Active,
    {
        ParticipationMode::Active
    }
}

/// A timestamp in milliseconds, comparable and suitable for ordering.
#[derive(Debug, Clone, Copy, PartialEq, Eq, PartialOrd, Ord, Hash, Structural)]
pub struct Timestamp(u64);

impl Timestamp {
    /// The milliseconds that the timestamp holds.
    pub closed spec fn millis(self) -> u64 {
        self.0
    }

    /// A timestamp for the current moment, read from the wall clock in
    /// milliseconds. Nothing is promised of the value: it is the time.
    pub fn now() -> Self {
        Timestamp(now_millis())
    }

    /// The raw milliseconds value.
    pub fn as_millis(&self) -> (ms: u64)
        ensures
            ms == self.millis(),
    {
        self.0
    }

    /// A timestamp holding `millis`.
    pub fn from_millis(millis: u64) -> (t: Self)
        ensures
            t.millis() == millis,
    {
        Timestamp(millis)
    }

    /// Two timestamps are equal exactly when they hold the same milliseconds.
    pub proof fn lemma_eq_by_millis(a: Timestamp, b: Timestamp)
        ensures
            a == b <==> a.millis() == b.millis(),
    {
    }

    /// The display text: the milliseconds followed by "ms", such as "12345ms".
    pub open spec fn text_spec(self) -> Seq<char> {
        decimal(self.millis() as nat) + seq!['m', 's']
    }

    /// The display text of the timestamp.
    pub fn to_string(&self) -> (s: String)
        ensures
            s@ == self.text_spec(),
    {
        let digits = decimal_string(self.0);
        proof {
            reveal_strlit("ms");
        }
        digits.concat("ms")
    }
}

/// The bytes that a name takes in UTF-8.
pub open spec fn byte_len(s: Seq<char>) -> nat {
    vstd::utf8::encode_utf8(s).len()
}

/// Errors that can occur when working with participants.
#[derive(Debug, Clone, Copy, PartialEq, Eq, Structural)]
pub enum ParticipantError {
    /// A participant was created with an empty name.
    EmptyName,
    /// A name longer than 50 bytes.
    InvalidNameLength,
    /// A mode change while an activity is in progress.
    CannotToggleDuringActivity,
}

impl ParticipantError {
    /// The error's message.
    pub open spec fn message_spec(self) -> Seq<char> {
        match self {
            ParticipantError::EmptyName => "Name cannot be empty"@,
            ParticipantError::InvalidNameLength => "Name must be between 1 and 50 characters"@,
            ParticipantError::CannotToggleDuringActivity =>
                "Cannot change participation mode during active activity"@,
        }
    }

    /// The error's message text.
    pub fn message(&self) -> (s: String)
        ensures
            s@ == self.message_spec(),
    {
        match self {
            ParticipantError::EmptyName => String::from_str("Name cannot be empty"),
            ParticipantError::InvalidNameLength => String::from_str(
                "Name must be between 1 and 50 characters",
            ),
            ParticipantError::CannotToggleDuringActivity => String::from_str(
                "Cannot change participation mode during active activity",
            ),
        }
    }
}

/// The error, if any, that the name rules give for `name`: empty names and
/// names over 50 bytes are refused.
pub open spec fn name_error(name: Seq<char>) -> Option<ParticipantError> {
    if name.len() == 0 {
        Some(ParticipantError::EmptyName)
    } else if byte_len(name) > 50 {
        Some(ParticipantError::InvalidNameLength)
    } else {
        None
    }
}

/// What a participant is: identity, display name, role, mode and join time.
pub struct ParticipantView {
    pub id: Uuid,
    pub name: Seq<char>,
    pub role: LobbyRole,
    pub mode: ParticipationMode,
    pub joined_at: u64,
}

/// A participant in a lobby session: a Host (with management privileges) or
/// a Guest, either Active (can play) or Spectating (view-only).
#[derive(Debug, PartialEq)]
pub struct Participant {
    id: Uuid,
    name: String,
    lobby_role: LobbyRole,
    participation_mode: ParticipationMode,
    joined_at: Timestamp,
}

impl View for Participant {
    type V = ParticipantView;

    closed spec fn view(&self) -> ParticipantView {
        ParticipantView {
            id: self.id,
            name: self.name@,
            role: self.lobby_role,
            mode: self.participation_mode,
            joined_at: self.joined_at.millis(),
        }
    }
}

impl Clone for Participant {
    fn clone(&self) -> (p: Self)
        ensures
            p@ == self@,
    {
        Participant {
            id: self.id,
            name: self.name.clone(),
            lobby_role: self.lobby_role,
            participation_mode: self.participation_mode,
            joined_at: self.joined_at,
        }
    }
}

impl Participant {
    /// Validates a name: empty names and names over 50 bytes are refused.
    fn validate_name(name: &str) -> (r: Result<(), ParticipantError>)
        ensures
            r == (match name_error(name@) {
                Some(e) => Err::<(), ParticipantError>(e),
                None => Ok(()),
            }),
    {
        if name.is_empty() {
            return Err(ParticipantError::EmptyName);
        }
        if name.as_bytes().len() > 50 {
            return Err(ParticipantError::InvalidNameLength);
        }
        Ok(())
    }

    /// A participant with the given identity, name, role and join time,
    /// after the name rules; new participants start Active.
    pub fn create(id: Uuid, name: String, lobby_role: LobbyRole, joined_at: Timestamp) -> (r:
        Result<Self, ParticipantError>)
        ensures
            match name_error(name@) {
                Some(e) => r == Err::<Self, ParticipantError>(e),
                None => r matches Ok(p) && p@ == (ParticipantView {
                    id,
                    name: name@,
                    role: lobby_role,
                    mode: ParticipationMode::Active,
                    joined_at: joined_at.millis(),
                }),
            },
    {
        match Self::validate_name(name.as_str()) {
            Err(e) => Err(e),
            Ok(()) => Ok(
                Participant {
                    id,
                    name,
                    lobby_role,
                    participation_mode: ParticipationMode::default(),
                    joined_at,
                },
            ),
        }
    }

    /// A participant exactly as given, without the name rules (for values
    /// that were validated where they were made, such as received copies).
    pub fn from_parts(
        id: Uuid,
        name: String,
        lobby_role: LobbyRole,
        participation_mode: ParticipationMode,
        joined_at: Timestamp,
    ) -> (p: Self)
        ensures
            p@ == (ParticipantView {
                id,
                name: name@,
                role: lobby_role,
                mode: participation_mode,
                joined_at: joined_at.millis(),
            }),
    {
        Participant { id, name, lobby_role, participation_mode, joined_at }
    }

    /// A new participant with the Host role, a fresh random id and the
    /// current time.
    pub fn new_host(name: String) -> (r: Result<Self, ParticipantError>)
        ensures
            match name_error(name@) {
                Some(e) => r == Err::<Self, ParticipantError>(e),
                None => r matches Ok(p) && p@.name == name@ && p@.role == LobbyRole::Host
                    && p@.mode == ParticipationMode::Active,
            },
    {
        Self::create(random_uuid(), name, LobbyRole::Host, Timestamp::now())
    }

    /// A new participant with the Guest role, a fresh random id and the
    /// current time.
    pub fn new_guest(name: String) -> (r: Result<Self, ParticipantError>)
        ensures
            match name_error(name@) {
                Some(e) => r == Err::<Self, ParticipantError>(e),
                None => r matches Ok(p) && p@.name == name@ && p@.role == LobbyRole::Guest
                    && p@.mode == ParticipationMode::Active,
            },
    {
        Self::create(random_uuid(), name, LobbyRole::Guest, Timestamp::now())
    }

    /// A new participant with the given role and join time and a fresh random id.
    pub fn with_timestamp(name: String, lobby_role: LobbyRole, joined_at: Timestamp) -> (r: Result<
        Self,
        ParticipantError,
    >)
        ensures
            match name_error(name@) {
                Some(e) => r == Err::<Self, ParticipantError>(e),
                None => r matches Ok(p) && p@.name == name@ && p@.role == lobby_role && p@.mode
                    == ParticipationMode::Active && p@.joined_at == joined_at.millis(),
            },
    {
        Self::create(random_uuid(), name, lobby_role, joined_at)
    }

    pub fn id(&self) -> (id: Uuid)
        ensures
            id == self@.id,
    {
        self.id
    }

    pub fn name(&self) -> (name: &str)
        ensures
            name@ == self@.name,
    {
        self.name.as_str()
    }

    pub fn lobby_role(&self) -> (role: LobbyRole)
        ensures
            role == self@.role,
    {
        self.lobby_role
    }

    pub fn participation_mode(&self) -> (mode: ParticipationMode)
        ensures
            mode == self@.mode,
    {
        self.participation_mode
    }

    pub fn joined_at(&self) -> (t: Timestamp)
        ensures
            t.millis() == self@.joined_at,
    {
        self.joined_at
    }

    /// Whether this participant is the host.
    pub fn is_host(&self) -> (b: bool)
        ensures
            b == (self@.role == LobbyRole::Host),
    {
        match self.lobby_role {
            LobbyRole::Host => true,
            LobbyRole::Guest => false,
        }
    }

    /// Whether this participant can submit activity results (is Active).
    pub fn can_submit_results(&self) -> (b: bool)
        ensures
            b == (self@.mode == ParticipationMode::Active),
    {
        match self.participation_mode {
            ParticipationMode::Active => true,
            ParticipationMode::Spectating => false,
        }
    }

    /// Whether this participant can manage the lobby (is the host).
    pub fn can_manage_lobby(&self) -> (b: bool)
        ensures
            b == (self@.role == LobbyRole::Host),
    {
        self.is_host()
    }

    /// Toggles the participation mode (Active and Spectating); refused while
    /// an activity is in progress, and then nothing changes.
    pub fn toggle_participation_mode(&mut self, activity_in_progress: bool) -> (r: Result<
        ParticipationMode,
        ParticipantError,
    >)
        ensures
            activity_in_progress ==> r == Err::<ParticipationMode, ParticipantError>(
                ParticipantError::CannotToggleDuringActivity,
            ) && final(self)@ == old(self)@,
            !activity_in_progress ==> r == Ok::<ParticipationMode, ParticipantError>(
                old(self)@.mode.flipped(),
            ) && final(self)@ == (ParticipantView { mode: old(self)@.mode.flipped(), ..old(self)@ }),
    {
        if activity_in_progress {
            return Err(ParticipantError::CannotToggleDuringActivity);
        }
        self.participation_mode = match self.participation_mode {
            ParticipationMode::Active => ParticipationMode::Spectating,
            ParticipationMode::Spectating => ParticipationMode::Active,
        };
        Ok(self.participation_mode)
    }

    /// Sets the participation mode (used by the host).
    pub fn force_participation_mode(&mut self, mode: ParticipationMode)
        ensures
            final(self)@ == (ParticipantView { mode, ..old(self)@ }),
    {
        self.participation_mode = mode;
    }

    /// Gives this participant the Host role.
    pub fn promote_to_host(&mut self)
        ensures
            final(self)@ == (ParticipantView { role: LobbyRole::Host, ..old(self)@ }),
    {
        self.lobby_role = LobbyRole::Host;
    }

    /// Gives this participant the Guest role.
    pub fn demote_to_guest(&mut self)
        ensures
            final(self)@ == (ParticipantView { role: LobbyRole::Guest, ..old(self)@ }),
    {
        self.lobby_role = LobbyRole::Guest;
    }
}

/// Toggling the participation mode twice, with no activity in progress,
/// gives back the mode one started with.
pub proof fn lemma_toggle_twice_restores(m: ParticipationMode)
    ensures
        m.flipped().flipped() == m,
{
}

/// The example timestamp that schemas of a timestamp show.
pub fn example_timestamp() -> (t: u64)
    ensures
        t == 12345,
{
    12345
}

/// The example id that schemas of a participant show.
pub fn example_uuid() -> (s: &'static str)
    ensures
        s@ == "550e8400-e29b-41d4-a716-446655440000"@,
{
    "550e8400-e29b-41d4-a716-446655440000"
}

/// The example name that schemas of a participant show.
pub fn example_name() -> (s: &'static str)
    ensures
        s@ == "Alice"@,
{
    "Alice"
}

} // verus!
