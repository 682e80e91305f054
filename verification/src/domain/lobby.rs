//! The lobby aggregate: participants, the host, the activity queue and the
//! run in progress.

use vstd::prelude::*;
use std::collections::{HashMap, HashSet};
use crate::ident::{Uuid, random_uuid, uuid_string, uuid_text};
use crate::domain::participant::{
    LobbyRole, Participant, ParticipantError, ParticipantView, ParticipationMode,
};
use crate::domain::activity::{ActivityConfig, ActivityId};
use crate::domain::activity_run::ActivityRunId;

verus! {

broadcast use vstd::std_specs::hash::group_hash_axioms;

/// Why a lobby refused an operation.
#[derive(Debug, Clone, Copy, PartialEq, Eq, Structural)]
pub enum LobbyError {
    NoHost,
    ParticipantNotFound(Uuid),
    CannotDelegateToNonGuest,
    EmptyLobby,
    CannotRemoveHost,
    CannotKickHost,
    PermissionDenied,
    ParticipantError(ParticipantError),
    ActivityNotFound(ActivityId),
    ActivityAlreadyExists(ActivityId),
    RunAlreadyInProgress,
    NoRunInProgress,
    EmptyQueue,
    /// Another participant of the lobby already has the name.
    NameTaken,
    /// A guest under the host's id would replace the host.
    CannotReplaceHost,
}

impl LobbyError {
    /// The error's message.
    pub open spec fn message_spec(self) -> Seq<char> {
        match self {
            LobbyError::NoHost => "Lobby must have exactly one host"@,
            LobbyError::ParticipantNotFound(id) => "Participant not found: "@ + uuid_text(id),
            LobbyError::CannotDelegateToNonGuest => "Cannot delegate to non-guest participant"@,
            LobbyError::EmptyLobby => "Lobby is empty, cannot delegate host"@,
            LobbyError::CannotRemoveHost => "Cannot remove host without delegation"@,
            LobbyError::CannotKickHost => "Cannot kick the host"@,
            LobbyError::PermissionDenied => "Permission denied"@,
            LobbyError::ParticipantError(e) => "Participant error: "@ + e.message_spec(),
            LobbyError::ActivityNotFound(id) => "Activity not found: "@ + uuid_text(id),
            LobbyError::ActivityAlreadyExists(id) => "Activity already exists: "@ + uuid_text(id),
            LobbyError::RunAlreadyInProgress => "A run is already in progress"@,
            LobbyError::NoRunInProgress => "No run in progress"@,
            LobbyError::EmptyQueue => "Activity queue is empty"@,
            LobbyError::NameTaken => "Name already taken in this lobby"@,
            LobbyError::CannotReplaceHost => "Cannot replace the host"@,
        }
    }

    /// The error's message text.
    pub fn message(&self) -> (s: String)
        ensures
            s@ == self.message_spec(),
    {
        match self {
            LobbyError::NoHost => String::from_str("Lobby must have exactly one host"),
            LobbyError::ParticipantNotFound(id) => String::from_str(
                "Participant not found: ",
            ).concat(uuid_string(*id).as_str()),
            LobbyError::CannotDelegateToNonGuest => String::from_str(
                "Cannot delegate to non-guest participant",
            ),
            LobbyError::EmptyLobby => String::from_str("Lobby is empty, cannot delegate host"),
            LobbyError::CannotRemoveHost => String::from_str("Cannot remove host without delegation"),
            LobbyError::CannotKickHost => String::from_str("Cannot kick the host"),
            LobbyError::PermissionDenied => String::from_str("Permission denied"),
            LobbyError::ParticipantError(e) => String::from_str("Participant error: ").concat(
                e.message().as_str(),
            ),
            LobbyError::ActivityNotFound(id) => String::from_str("Activity not found: ").concat(
                uuid_string(*id).as_str(),
            ),
            LobbyError::ActivityAlreadyExists(id) => String::from_str(
                "Activity already exists: ",
            ).concat(uuid_string(*id).as_str()),
            LobbyError::RunAlreadyInProgress => String::from_str("A run is already in progress"),
            LobbyError::NoRunInProgress => String::from_str("No run in progress"),
            LobbyError::EmptyQueue => String::from_str("Activity queue is empty"),
            LobbyError::NameTaken => String::from_str("Name already taken in this lobby"),
            LobbyError::CannotReplaceHost => String::from_str("Cannot replace the host"),
        }
    }
}

impl From<ParticipantError> for LobbyError {
    fn from(e: ParticipantError) -> (r: Self)
        ensures
            r == LobbyError::ParticipantError(e),
    {
        LobbyError::ParticipantError(e)
    }
}

impl vstd::std_specs::convert::FromSpecImpl<ParticipantError> for LobbyError {
    open spec fn obeys_from_spec() -> bool {
        true
    }

    open spec fn from_spec(e: ParticipantError) -> Self {
        LobbyError::ParticipantError(e)
    }
}

/// What a lobby is: identity and name, participants by id, the host's id,
/// the queue of activities, and the run in progress if any.
pub struct LobbyView {
    pub id: Uuid,
    pub name: Seq<char>,
    pub participants: Map<Uuid, ParticipantView>,
    pub host_id: Uuid,
    pub queue: Seq<ActivityConfig>,
    pub active_run: Option<ActivityRunId>,
}

/// The participant view with the given mode.
pub open spec fn with_mode(p: ParticipantView, mode: ParticipationMode) -> ParticipantView {
    ParticipantView { mode, ..p }
}

/// The participant view with the given role.
pub open spec fn with_role(p: ParticipantView, role: LobbyRole) -> ParticipantView {
    ParticipantView { role, ..p }
}

impl LobbyView {
    /// The participant under `k` is a guest other than the host: a candidate
    /// for automatic host delegation.
    pub open spec fn is_candidate(self, k: Uuid) -> bool {
        &&& self.participants.contains_key(k)
        &&& self.participants[k].role == LobbyRole::Guest
        &&& self.participants[k].id != self.host_id
    }

    /// The participant under `k` can submit results (is Active).
    pub open spec fn is_active_key(self, k: Uuid) -> bool {
        self.participants.contains_key(k) && self.participants[k].mode == ParticipationMode::Active
    }

    /// The ids that the active participants hold.
    pub open spec fn active_ids(self) -> Set<Uuid> {
        Set::new(|id: Uuid| exists|k: Uuid| self.is_active_key(k) && self.participants[k].id == id)
    }

    /// Some participant is not the host.
    pub open spec fn has_guest(self) -> bool {
        exists|k: Uuid|
            self.participants.contains_key(k) && self.participants[k].role == LobbyRole::Guest
    }

    /// What `add_guest` answers for `g`.
    pub open spec fn add_guest_outcome(self, g: ParticipantView) -> Result<(), LobbyError> {
        if g.role == LobbyRole::Host {
            Err(LobbyError::CannotDelegateToNonGuest)
        } else if self.already_there(g) {
            Ok(())
        } else if g.id == self.host_id {
            Err(LobbyError::CannotReplaceHost)
        } else if self.name_taken(g.id, g.name) {
            Err(LobbyError::NameTaken)
        } else {
            Ok(())
        }
    }

    /// A participant under `g`'s id with `g`'s name is present.
    pub open spec fn already_there(self, g: ParticipantView) -> bool {
        self.participants.contains_key(g.id) && self.participants[g.id].name == g.name
    }

    /// A participant other than the one under `id` has the name `name`.
    pub open spec fn name_taken(self, id: Uuid, name: Seq<char>) -> bool {
        exists|k: Uuid|
            #[trigger] self.participants.contains_key(k) && k != id && self.participants[k].name == name
    }

    /// The lobby after `add_guest(g)`: a guest that is accepted and not
    /// already there is set under its id; otherwise nothing changes.
    pub open spec fn add_guest_state(self, g: ParticipantView) -> LobbyView {
        if self.add_guest_outcome(g) is Ok && !self.already_there(g) {
            LobbyView { participants: self.participants.insert(g.id, g), ..self }
        } else {
            self
        }
    }

    /// What `remove_participant(pid)` answers: whether the removed
    /// participant had the Host role.
    pub open spec fn remove_outcome(self, pid: Uuid) -> Result<bool, LobbyError> {
        if pid == self.host_id {
            Err(LobbyError::CannotRemoveHost)
        } else if !self.participants.contains_key(pid) {
            Err(LobbyError::ParticipantNotFound(pid))
        } else {
            Ok(self.participants[pid].role == LobbyRole::Host)
        }
    }

    /// What `kick_guest(guest_id, host_id)` answers (the kicked participant
    /// on success).
    pub open spec fn kick_outcome(self, guest_id: Uuid, host_id: Uuid) -> Result<ParticipantView, LobbyError> {
        if !self.participants.contains_key(host_id) {
            Err(LobbyError::ParticipantNotFound(host_id))
        } else if self.participants[host_id].role != LobbyRole::Host {
            Err(LobbyError::PermissionDenied)
        } else if guest_id == host_id {
            Err(LobbyError::CannotKickHost)
        } else if !self.participants.contains_key(guest_id) {
            Err(LobbyError::ParticipantNotFound(guest_id))
        } else if self.participants[guest_id].role == LobbyRole::Host {
            Err(LobbyError::CannotKickHost)
        } else {
            Ok(self.participants[guest_id])
        }
    }

    /// What `delegate_host(new_host_id)` answers.
    pub open spec fn delegate_outcome(self, new_host_id: Uuid) -> Result<(), LobbyError> {
        if !self.participants.contains_key(new_host_id) {
            Err(LobbyError::ParticipantNotFound(new_host_id))
        } else if self.participants[new_host_id].role == LobbyRole::Host {
            Err(LobbyError::CannotDelegateToNonGuest)
        } else {
            Ok(())
        }
    }

    /// The lobby after `delegate_host(new_host_id)`: the new host is
    /// promoted, the old host (unless it holds the new host's id) demoted,
    /// and the host id moves.
    pub open spec fn delegate_state(self, new_host_id: Uuid) -> LobbyView {
        if self.delegate_outcome(new_host_id) is Err {
            self
        } else {
            let promoted = self.participants.insert(
                new_host_id,
                with_role(self.participants[new_host_id], LobbyRole::Host),
            );
            let demoted = if promoted.contains_key(self.host_id) && promoted[self.host_id].id
                != new_host_id {
                promoted.insert(self.host_id, with_role(promoted[self.host_id], LobbyRole::Guest))
            } else {
                promoted
            };
            LobbyView { participants: demoted, host_id: new_host_id, ..self }
        }
    }

    /// What `toggle_participation_mode(pid, rid)` answers.
    pub open spec fn toggle_outcome(self, pid: Uuid, rid: Uuid) -> Result<ParticipationMode, LobbyError> {
        if !self.participants.contains_key(rid) {
            Err(LobbyError::ParticipantNotFound(rid))
        } else if pid != rid && self.participants[rid].role != LobbyRole::Host {
            Err(LobbyError::PermissionDenied)
        } else if !self.participants.contains_key(pid) {
            Err(LobbyError::ParticipantNotFound(pid))
        } else if self.active_run is Some {
            Err(LobbyError::ParticipantError(ParticipantError::CannotToggleDuringActivity))
        } else {
            Ok(self.participants[pid].mode.flipped())
        }
    }

    /// The lobby after `toggle_participation_mode(pid, rid)`.
    pub open spec fn toggle_state(self, pid: Uuid, rid: Uuid) -> LobbyView {
        match self.toggle_outcome(pid, rid) {
            Ok(mode) => LobbyView {
                participants: self.participants.insert(pid, with_mode(self.participants[pid], mode)),
                ..self
            },
            Err(_) => self,
        }
    }

    /// What `force_participation_mode(pid, host_id, mode)` answers.
    pub open spec fn force_outcome(self, pid: Uuid, host_id: Uuid) -> Result<(), LobbyError> {
        if !self.participants.contains_key(host_id) {
            Err(LobbyError::ParticipantNotFound(host_id))
        } else if self.participants[host_id].role != LobbyRole::Host {
            Err(LobbyError::PermissionDenied)
        } else if !self.participants.contains_key(pid) {
            Err(LobbyError::ParticipantNotFound(pid))
        } else {
            Ok(())
        }
    }

    /// Exactly one participant is the host: the one filed under `host_id`
    /// has the Host role, everyone else is a guest, and each participant is
    /// filed under its own id.
    pub open spec fn one_host(self) -> bool {
        &&& self.participants.contains_key(self.host_id)
        &&& self.participants[self.host_id].role == LobbyRole::Host
        &&& forall|k: Uuid| #[trigger] self.participants.contains_key(k) ==> self.participants[k].id == k
        &&& forall|k: Uuid|
            #[trigger] self.participants.contains_key(k) && k != self.host_id
                ==> self.participants[k].role == LobbyRole::Guest
    }

    /// No two participants share a name.
    pub open spec fn names_distinct(self) -> bool {
        forall|x: Uuid, y: Uuid|
            #[trigger] self.participants.contains_key(x) && #[trigger] self.participants.contains_key(y) && x
                != y ==> self.participants[x].name != self.participants[y].name
    }

    /// Some queued activity has this id.
    pub open spec fn queue_has(self, id: ActivityId) -> bool {
        exists|i: int| 0 <= i < self.queue.len() && self.queue[i].id == id
    }
}


/// A lobby made around a host has exactly one host.
pub proof fn lemma_one_host_created(id: Uuid, name: Seq<char>, host: ParticipantView)
    requires
        host.role == LobbyRole::Host,
    ensures
        (LobbyView {
            id,
            name,
            participants: map![host.id => host],
            host_id: host.id,
            queue: Seq::empty(),
            active_run: None,
        }).one_host(),
{
}

/// Every change to participants keeps exactly one host: adding a guest,
/// removing or kicking a participant, delegating the host role, and
/// setting the participation mode of a participant.
pub proof fn lemma_one_host_preserved(
    l: LobbyView,
    g: ParticipantView,
    pid: Uuid,
    rid: Uuid,
    new_host: Uuid,
    mode: ParticipationMode,
)
    requires
        l.one_host(),
    ensures
        l.add_guest_state(g).one_host(),
        l.remove_outcome(pid) is Ok ==> (LobbyView { participants: l.participants.remove(pid), ..l }).one_host(),
        l.kick_outcome(pid, rid) is Ok ==> (LobbyView { participants: l.participants.remove(pid), ..l }).one_host(),
        l.delegate_state(new_host).one_host(),
        l.toggle_state(pid, rid).one_host(),
        l.participants.contains_key(pid) ==> (LobbyView {
            participants: l.participants.insert(pid, with_mode(l.participants[pid], mode)),
            ..l
        }).one_host(),
{
    if l.delegate_outcome(new_host) is Ok {
        let d = l.delegate_state(new_host);
        assert(new_host != l.host_id);
        assert(d.participants[l.host_id].role == LobbyRole::Guest);
    }
}

/// Only a participant itself or the host may toggle its mode: a request
/// from anyone else is refused with `PermissionDenied` and changes nothing.
/// A toggle that succeeds was asked by the participant or the host, outside
/// a run, and flips that participant's mode and nothing else.
pub proof fn lemma_toggle_permission(l: LobbyView, pid: Uuid, rid: Uuid)
    ensures
        l.participants.contains_key(rid) && pid != rid && l.participants[rid].role != LobbyRole::Host ==> l.toggle_outcome(
            pid,
            rid,
        ) == Err::<ParticipationMode, LobbyError>(LobbyError::PermissionDenied) && l.toggle_state(pid, rid) == l,
        l.toggle_outcome(pid, rid) is Ok ==> {
            let t = l.toggle_state(pid, rid);
            &&& pid == rid || l.participants[rid].role == LobbyRole::Host
            &&& l.participants.contains_key(pid)
            &&& l.active_run is None
            &&& t.participants.contains_key(pid)
            &&& t.participants[pid].mode != l.participants[pid].mode
            &&& t.participants[pid].id == l.participants[pid].id
            &&& t.participants[pid].name == l.participants[pid].name
            &&& t.participants[pid].role == l.participants[pid].role
            &&& t.participants.dom() == l.participants.dom()
            &&& forall|k: Uuid| #[trigger] l.participants.contains_key(k) && k != pid ==> t.participants[k] == l.participants[k]
            &&& t.host_id == l.host_id && t.queue == l.queue && t.active_run == l.active_run
        },
{
    if l.toggle_outcome(pid, rid) is Ok {
        let m = l.participants[pid].mode;
        assert(m.flipped() != m) by {
            match m {
                ParticipationMode::Active => {},
                ParticipationMode::Spectating => {},
            }
        }
        assert(l.toggle_state(pid, rid).participants.dom() =~= l.participants.dom());
    }
}

/// A lobby made around a host has no two participants with one name.
pub proof fn lemma_names_distinct_created(id: Uuid, name: Seq<char>, host: ParticipantView)
    ensures
        (LobbyView {
            id,
            name,
            participants: map![host.id => host],
            host_id: host.id,
            queue: Seq::empty(),
            active_run: None,
        }).names_distinct(),
{
}

/// Names stay unique within a lobby under every change to participants:
/// adding a guest, removing or kicking a participant, delegating the host
/// role, and setting the participation mode of a participant.
pub proof fn lemma_names_distinct_preserved(
    l: LobbyView,
    g: ParticipantView,
    pid: Uuid,
    rid: Uuid,
    new_host: Uuid,
    mode: ParticipationMode,
)
    requires
        l.names_distinct(),
    ensures
        l.add_guest_state(g).names_distinct(),
        l.remove_outcome(pid) is Ok ==> (LobbyView { participants: l.participants.remove(pid), ..l }).names_distinct(),
        l.kick_outcome(pid, rid) is Ok ==> (LobbyView { participants: l.participants.remove(pid), ..l }).names_distinct(),
        l.delegate_state(new_host).names_distinct(),
        l.toggle_state(pid, rid).names_distinct(),
        l.participants.contains_key(pid) ==> (LobbyView {
            participants: l.participants.insert(pid, with_mode(l.participants[pid], mode)),
            ..l
        }).names_distinct(),
{
    let a = l.add_guest_state(g);
    if a != l {
        assert forall|x: Uuid, y: Uuid|
            #[trigger] a.participants.contains_key(x) && #[trigger] a.participants.contains_key(y) && x != y
            implies a.participants[x].name != a.participants[y].name by {
            if x == g.id {
                assert(!l.name_taken(g.id, g.name));
                assert(!(l.participants.contains_key(y) && y != g.id && l.participants[y].name == g.name));
            } else if y == g.id {
                assert(!l.name_taken(g.id, g.name));
                assert(!(l.participants.contains_key(x) && x != g.id && l.participants[x].name == g.name));
            }
        }
    }
    let d = l.delegate_state(new_host);
    assert forall|x: Uuid, y: Uuid|
        #[trigger] d.participants.contains_key(x) && #[trigger] d.participants.contains_key(y) && x != y
        implies d.participants[x].name != d.participants[y].name by {
        assert(l.participants.contains_key(x) && l.participants.contains_key(y));
        assert(d.participants[x].name == l.participants[x].name);
        assert(d.participants[y].name == l.participants[y].name);
    }
}

/// Whether two texts are equal.
pub fn str_eq(a: &str, b: &str) -> (r: bool)
    ensures
        r == (a@ == b@),
{
    let sa = String::from_str(a);
    let sb = String::from_str(b);
    sa == sb
}

/// A lobby: participants by id, the host's id, a queue of activities, and
/// the run in progress if any.
#[derive(Debug, PartialEq)]
pub struct Lobby {
    id: Uuid,
    name: String,
    participants: HashMap<Uuid, Participant>,
    host_id: Uuid,
    activity_queue: Vec<ActivityConfig>,
    /// Some while a run is in progress, None when idle.
    active_run_id: Option<ActivityRunId>,
}

/// The views of the participants in a map.
pub open spec fn participant_views(m: Map<Uuid, Participant>) -> Map<Uuid, ParticipantView> {
    m.map_values(|p: Participant| p@)
}

impl View for Lobby {
    type V = LobbyView;

    closed spec fn view(&self) -> LobbyView {
        LobbyView {
            id: self.id,
            name: self.name@,
            participants: participant_views(self.participants@),
            host_id: self.host_id,
            queue: self.activity_queue@,
            active_run: self.active_run_id,
        }
    }
}

impl Clone for Lobby {
    /// A copy of the lobby.
    fn clone(&self) -> (l: Lobby)
        ensures
            l@ == self@,
    {
        let mut participants: HashMap<Uuid, Participant> = HashMap::new();
        let keys = crate::keys::map_keys(&self.participants);
        let mut i: usize = 0;
        while i < keys.len()
            invariant
                i <= keys@.len(),
                keys@.to_set() == self.participants@.dom(),
                keys@.no_duplicates(),
                participants@.dom() == keys@.take(i as int).to_set(),
                forall|k: Uuid|
                    #[trigger] participants@.contains_key(k) ==> participants@[k]@
                        == self.participants@[k]@,
            decreases keys.len() - i,
        {
            let k = keys[i];
            proof {
                assert(keys@.to_set().contains(k));
                assert(keys@.take(i + 1) =~= keys@.take(i as int).push(k));
                keys@.take(i as int).lemma_push_to_set_commute(k);
            }
            match self.participants.get(&k) {
                Some(p) => {
                    participants.insert(k, p.clone());
                },
                None => {},
            }
            i += 1;
        }
        proof {
            assert(keys@.take(keys@.len() as int) =~= keys@);
            assert(participant_views(participants@) =~= participant_views(self.participants@));
        }
        let mut queue: Vec<ActivityConfig> = Vec::new();
        let mut j: usize = 0;
        while j < self.activity_queue.len()
            invariant
                j <= self.activity_queue@.len(),
                queue@ == self.activity_queue@.take(j as int),
            decreases self.activity_queue@.len() - j,
        {
            queue.push(self.activity_queue[j].clone());
            proof {
                assert(self.activity_queue@.take(j + 1) =~= self.activity_queue@.take(j as int).push(
                    self.activity_queue@[j as int],
                ));
            }
            j += 1;
        }
        proof {
            assert(self.activity_queue@.take(self.activity_queue@.len() as int) =~= self.activity_queue@);
        }
        Lobby {
            id: self.id,
            name: self.name.clone(),
            participants,
            host_id: self.host_id,
            activity_queue: queue,
            active_run_id: self.active_run_id,
        }
    }
}

impl Lobby {
    /// The map of participants; its views are the lobby's participants.
    pub closed spec fn participant_map(&self) -> Map<Uuid, Participant> {
        self.participants@
    }

    pub proof fn lemma_participant_map(&self)
        ensures
            self@.participants == participant_views(self.participant_map()),
    {
    }

    /// A lobby with a fresh random id whose only participant is `host`;
    /// refused unless `host` has the Host role.
    pub fn new(name: String, host: Participant) -> (r: Result<Self, LobbyError>)
        ensures
            host@.role != LobbyRole::Host ==> r == Err::<Lobby, LobbyError>(LobbyError::NoHost),
            host@.role == LobbyRole::Host ==> (r matches Ok(l) && l@.name == name@
                && l@.participants == map![host@.id => host@] && l@.host_id == host@.id
                && l@.queue == Seq::<ActivityConfig>::empty() && l@.active_run is None),
    {
        Self::with_id(random_uuid(), name, host)
    }

    /// A lobby with the given id whose only participant is `host`; refused
    /// unless `host` has the Host role.
    pub fn with_id(id: Uuid, name: String, host: Participant) -> (r: Result<Self, LobbyError>)
        ensures
            host@.role != LobbyRole::Host ==> r == Err::<Lobby, LobbyError>(LobbyError::NoHost),
            host@.role == LobbyRole::Host ==> (r matches Ok(l) && l@ == (LobbyView {
                id,
                name: name@,
                participants: map![host@.id => host@],
                host_id: host@.id,
                queue: Seq::empty(),
                active_run: None,
            })),
    {
        if !host.is_host() {
            return Err(LobbyError::NoHost);
        }
        let host_id = host.id();
        let mut participants = HashMap::new();
        participants.insert(host_id, host);
        let l = Lobby {
            id,
            name,
            participants,
            host_id,
            activity_queue: Vec::new(),
            active_run_id: None,
        };
        assert(l@.participants =~= map![host_id => host@]);
        Ok(l)
    }

    pub fn id(&self) -> (id: Uuid)
        ensures
            id == self@.id,
    {
        self.id
    }

    pub fn name(&self) -> (name: &str)
        ensures
            name@ == self@.name,
    {
        self.name.as_str()
    }

    pub fn host_id(&self) -> (id: Uuid)
        ensures
            id == self@.host_id,
    {
        self.host_id
    }

    /// The participant under the host's id, if present.
    pub fn host(&self) -> (h: Option<&Participant>)
        ensures
            match h {
                Some(p) => self@.participants.contains_key(self@.host_id)
                    && self@.participants[self@.host_id] == p@,
                None => !self@.participants.contains_key(self@.host_id),
            },
    {
        self.participants.get(&self.host_id)
    }

    /// The participants by id.
    pub fn participants(&self) -> (m: &HashMap<Uuid, Participant>)
        ensures
            m@ == self.participant_map(),
    {
        &self.participants
    }

    /// The participant under `id`, if present.
    pub fn participant(&self, id: Uuid) -> (p: Option<&Participant>)
        ensures
            match p {
                Some(p) => self@.participants.contains_key(id) && self@.participants[id] == p@,
                None => !self@.participants.contains_key(id),
            },
    {
        self.participants.get(&id)
    }

    /// The number of participants.
    pub fn participant_count(&self) -> (n: usize)
        ensures
            n == self@.participants.dom().len(),
    {
        proof {
            assert(self@.participants.dom() =~= self.participants@.dom());
        }
        self.participants.len()
    }

    pub fn activity_queue(&self) -> (q: &[ActivityConfig])
        ensures
            q@ == self@.queue,
    {
        self.activity_queue.as_slice()
    }

    pub fn active_run_id(&self) -> (r: Option<ActivityRunId>)
        ensures
            r == self@.active_run,
    {
        self.active_run_id
    }

    pub fn has_active_run(&self) -> (b: bool)
        ensures
            b == (self@.active_run is Some),
    {
        self.active_run_id.is_some()
    }

    /// Adds a guest. A participant with the Host role is refused; a
    /// participant whose id is present under the same name is already
    /// there and nothing changes; a guest under the host's id is refused, as
    /// is a guest whose name another participant has; otherwise the entry
    /// under its id is set.
    pub fn add_guest(&mut self, guest: Participant) -> (r: Result<(), LobbyError>)
        ensures
            r == old(self)@.add_guest_outcome(guest@),
            final(self)@ == old(self)@.add_guest_state(guest@),
    {
        proof {
            self.lemma_participant_map();
        }
        if guest.is_host() {
            return Err(LobbyError::CannotDelegateToNonGuest);
        }
        let gid = guest.id();
        match self.participants.get(&gid) {
            Some(existing) => {
                if str_eq(existing.name(), guest.name()) {
                    return Ok(());
                }
            },
            None => {},
        }
        if gid == self.host_id {
            return Err(LobbyError::CannotReplaceHost);
        }
        if self.name_taken_by_other(gid, guest.name()) {
            return Err(LobbyError::NameTaken);
        }
        let ghost old_map = self.participants@;
        self.participants.insert(gid, guest);
        proof {
            assert(participant_views(self.participants@) =~= participant_views(old_map).insert(
                gid,
                guest@,
            ));
        }
        Ok(())
    }

    /// Whether a participant other than the one under `id` is named `name`.
    fn name_taken_by_other(&self, id: Uuid, name: &str) -> (b: bool)
        ensures
            b == self@.name_taken(id, name@),
    {
        proof {
            self.lemma_participant_map();
        }
        let keys = crate::keys::map_keys(&self.participants);
        let mut i: usize = 0;
        while i < keys.len()
            invariant
                i <= keys@.len(),
                keys@.to_set() == self.participants@.dom(),
                self@.participants == participant_views(self.participants@),
                forall|j: int|
                    0 <= j < i ==> !(#[trigger] keys@[j] != id && self.participants@[keys@[j]]@.name == name@),
            decreases keys@.len() - i,
        {
            let k = keys[i];
            proof {
                assert(keys@.to_set().contains(k));
            }
            if k != id {
                match self.participants.get(&k) {
                    Some(p) => {
                        if str_eq(p.name(), name) {
                            proof {
                                assert(self@.participants.contains_key(k));
                            }
                            return true;
                        }
                    },
                    None => {},
                }
            }
            i += 1;
        }
        proof {
            if self@.name_taken(id, name@) {
                let k = choose|k: Uuid|
                    #[trigger] self@.participants.contains_key(k) && k != id && self@.participants[k].name == name@;
                assert(keys@.to_set().contains(k));
                let j = keys@.index_of(k);
                assert(keys@[j] == k);
            }
        }
        false
    }

    /// Removes a participant other than the host; answers whether the removed
    /// participant had the Host role. Refused, with nothing changed, for the
    /// host's id and for an unknown id.
    pub fn remove_participant(&mut self, participant_id: Uuid) -> (r: Result<bool, LobbyError>)
        ensures
            r == old(self)@.remove_outcome(participant_id),
            r is Ok ==> final(self)@ == (LobbyView {
                participants: old(self)@.participants.remove(participant_id),
                ..old(self)@
            }),
            r is Err ==> final(self)@ == old(self)@,
    {
        if participant_id == self.host_id {
            return Err(LobbyError::CannotRemoveHost);
        }
        let ghost old_map = self.participants@;
        match self.participants.remove(&participant_id) {
            None => {
                proof {
                    assert(self.participants@ =~= old_map);
                }
                Err(LobbyError::ParticipantNotFound(participant_id))
            },
            Some(p) => {
                proof {
                    assert(participant_views(self.participants@) =~= participant_views(
                        old_map,
                    ).remove(participant_id));
                }
                Ok(p.is_host())
            },
        }
    }

    /// Kicks a guest on behalf of `host_id`, answering the kicked participant.
    /// Refused, with nothing changed, when the requester is unknown or not a
    /// host, when it kicks itself, when the guest is unknown, or when the
    /// participant to kick has the Host role (checked in that order).
    pub fn kick_guest(&mut self, guest_id: Uuid, host_id: Uuid) -> (r: Result<Participant, LobbyError>)
        ensures
            match old(self)@.kick_outcome(guest_id, host_id) {
                Ok(v) => r matches Ok(p) && p@ == v && final(self)@ == (LobbyView {
                    participants: old(self)@.participants.remove(guest_id),
                    ..old(self)@
                }),
                Err(e) => r matches Err(e2) && e2 == e && final(self)@ == old(self)@,
            },
    {
        match self.participants.get(&host_id) {
            None => {
                return Err(LobbyError::ParticipantNotFound(host_id));
            },
            Some(requester) => {
                if !requester.is_host() {
                    return Err(LobbyError::PermissionDenied);
                }
            },
        }
        if guest_id == host_id {
            return Err(LobbyError::CannotKickHost);
        }
        let ghost old_map = self.participants@;
        match self.participants.remove(&guest_id) {
            None => {
                proof {
                    assert(self.participants@ =~= old_map);
                }
                Err(LobbyError::ParticipantNotFound(guest_id))
            },
            Some(kicked) => {
                if kicked.is_host() {
                    self.participants.insert(guest_id, kicked);
                    proof {
                        assert(self.participants@ =~= old_map);
                    }
                    return Err(LobbyError::CannotKickHost);
                }
                proof {
                    assert(participant_views(self.participants@) =~= participant_views(
                        old_map,
                    ).remove(guest_id));
                }
                Ok(kicked)
            },
        }
    }

    /// Whether some participant is not the host.
    pub fn has_guests(&self) -> (b: bool)
        ensures
            b == self@.has_guest(),
    {
        for k in it: self.participants.keys()
            invariant
                forall|j: int|
                    0 <= j < it.index@ ==> #[trigger] self.participants@[*it.seq()[j]]@.role
                        == LobbyRole::Host,
        {
            match self.participants.get(k) {
                Some(p) => {
                    if !p.is_host() {
                        proof {
                            assert(self@.participants.contains_key(*k));
                        }
                        return true;
                    }
                },
                None => {},
            }
        }
        false
    }

    /// Makes `new_host_id` the host: it is promoted, the old host (unless it
    /// holds that same id) demoted, and the host id moves. Refused, with
    /// nothing changed, for an unknown id or a participant that already has
    /// the Host role.
    pub fn delegate_host(&mut self, new_host_id: Uuid) -> (r: Result<(), LobbyError>)
        ensures
            r == old(self)@.delegate_outcome(new_host_id),
            final(self)@ == old(self)@.delegate_state(new_host_id),
    {
        let ghost old_view = self@;
        let ghost old_map = self.participants@;
        let mut new_host = match self.participants.remove(&new_host_id) {
            None => {
                proof {
                    assert(self.participants@ =~= old_map);
                }
                return Err(LobbyError::ParticipantNotFound(new_host_id));
            },
            Some(p) => p,
        };
        if new_host.is_host() {
            self.participants.insert(new_host_id, new_host);
            proof {
                assert(self.participants@ =~= old_map);
            }
            return Err(LobbyError::CannotDelegateToNonGuest);
        }
        new_host.promote_to_host();
        self.participants.insert(new_host_id, new_host);
        let ghost promoted = self.participants@;
        proof {
            assert(participant_views(promoted) =~= old_view.participants.insert(
                new_host_id,
                with_role(old_view.participants[new_host_id], LobbyRole::Host),
            ));
        }
        let old_host_key = self.host_id;
        match self.participants.remove(&old_host_key) {
            None => {
                proof {
                    assert(self.participants@ =~= promoted);
                }
            },
            Some(mut old_host) => {
                if old_host.id() != new_host_id {
                    old_host.demote_to_guest();
                }
                self.participants.insert(old_host_key, old_host);
                proof {
                    assert(participant_views(self.participants@) =~= participant_views(promoted).insert(
                        old_host_key,
                        if promoted[old_host_key]@.id != new_host_id {
                            with_role(promoted[old_host_key]@, LobbyRole::Guest)
                        } else {
                            promoted[old_host_key]@
                        },
                    ));
                    if promoted[old_host_key]@.id == new_host_id {
                        assert(participant_views(self.participants@) =~= participant_views(promoted));
                    }
                }
            },
        }
        self.host_id = new_host_id;
        Ok(())
    }

    /// The key of a guest (other than the host) with the earliest join time,
    /// the first such in the map's order; None when there is none.
    fn oldest_candidate(&self) -> (k: Option<Uuid>)
        ensures
            match k {
                Some(k) => self@.is_candidate(k) && forall|j: Uuid|
                    #[trigger] self@.is_candidate(j) ==> self@.participants[k].joined_at
                        <= self@.participants[j].joined_at,
                None => forall|j: Uuid| !#[trigger] self@.is_candidate(j),
            },
    {
        let mut best: Option<Uuid> = None;
        let mut best_time: u64 = 0;
        for k in it: self.participants.keys()
            invariant
                match best {
                    Some(b) => self@.is_candidate(b) && self@.participants[b].joined_at == best_time
                        && forall|j: int|
                        0 <= j < it.index@ && #[trigger] self@.is_candidate(*it.seq()[j])
                            ==> best_time <= self@.participants[*it.seq()[j]].joined_at,
                    None => forall|j: int|
                        0 <= j < it.index@ ==> !#[trigger] self@.is_candidate(*it.seq()[j]),
                },
        {
            match self.participants.get(k) {
                Some(p) => {
                    proof {
                        assert(self@.participants.contains_key(*k));
                    }
                    if !p.is_host() && p.id() != self.host_id {
                        let t = p.joined_at().as_millis();
                        match best {
                            None => {
                                best = Some(*k);
                                best_time = t;
                            },
                            Some(_) => {
                                if t < best_time {
                                    best = Some(*k);
                                    best_time = t;
                                }
                            },
                        }
                    }
                },
                None => {},
            }
        }
        best
    }

    /// Hands the Host role to the guest (other than the host) that joined
    /// first, answering its id; `EmptyLobby`, with nothing changed, when
    /// there is no such guest.
    pub fn auto_delegate_host(&mut self) -> (r: Result<Uuid, LobbyError>)
        ensures
            (forall|j: Uuid| !#[trigger] old(self)@.is_candidate(j)) ==> r == Err::<Uuid, LobbyError>(
                LobbyError::EmptyLobby,
            ) && final(self)@ == old(self)@,
            (exists|j: Uuid| #[trigger] old(self)@.is_candidate(j)) ==> exists|k: Uuid|
                {
                    &&& #[trigger] old(self)@.is_candidate(k)
                    &&& forall|j: Uuid|
                        #[trigger] old(self)@.is_candidate(j) ==> old(self)@.participants[k].joined_at
                            <= old(self)@.participants[j].joined_at
                    &&& final(self)@ == old(self)@.delegate_state(old(self)@.participants[k].id)
                    &&& r == match old(self)@.delegate_outcome(old(self)@.participants[k].id) {
                        Ok(_) => Ok::<Uuid, LobbyError>(old(self)@.participants[k].id),
                        Err(e) => Err(e),
                    }
                },
    {
        match self.oldest_candidate() {
            None => Err(LobbyError::EmptyLobby),
            Some(k) => {
                let new_host_id = match self.participants.get(&k) {
                    Some(p) => p.id(),
                    None => {
                        return Err(LobbyError::EmptyLobby);
                    },
                };
                match self.delegate_host(new_host_id) {
                    Ok(()) => Ok(new_host_id),
                    Err(e) => Err(e),
                }
            },
        }
    }

    /// Toggles the participation mode of `participant_id` on behalf of
    /// `requester_id`, answering the new mode. The requester must be known
    /// and be the participant itself or a host; no toggle while a run is in
    /// progress. Refused, with nothing changed, otherwise.
    pub fn toggle_participation_mode(&mut self, participant_id: Uuid, requester_id: Uuid) -> (r:
        Result<ParticipationMode, LobbyError>)
        ensures
            r == old(self)@.toggle_outcome(participant_id, requester_id),
            final(self)@ == old(self)@.toggle_state(participant_id, requester_id),
    {
        match self.participants.get(&requester_id) {
            None => {
                return Err(LobbyError::ParticipantNotFound(requester_id));
            },
            Some(requester) => {
                let is_self = participant_id == requester_id;
                let is_host = requester.is_host();
                if !is_self && !is_host {
                    return Err(LobbyError::PermissionDenied);
                }
            },
        }
        let activity_in_progress = self.active_run_id.is_some();
        let ghost old_map = self.participants@;
        let mut participant = match self.participants.remove(&participant_id) {
            None => {
                proof {
                    assert(self.participants@ =~= old_map);
                }
                return Err(LobbyError::ParticipantNotFound(participant_id));
            },
            Some(p) => p,
        };
        let r = participant.toggle_participation_mode(activity_in_progress);
        self.participants.insert(participant_id, participant);
        proof {
            if activity_in_progress {
                assert(participant_views(self.participants@) =~= participant_views(old_map));
            } else {
                assert(participant_views(self.participants@) =~= participant_views(old_map).insert(
                    participant_id,
                    with_mode(old_map[participant_id]@, old_map[participant_id]@.mode.flipped()),
                ));
            }
        }
        match r {
            Ok(m) => Ok(m),
            Err(e) => Err(LobbyError::ParticipantError(e)),
        }
    }

    /// Sets the participation mode of `participant_id` on behalf of the host
    /// `host_id`. Refused, with nothing changed, when the requester is
    /// unknown or not a host, or the participant is unknown.
    pub fn force_participation_mode(
        &mut self,
        participant_id: Uuid,
        host_id: Uuid,
        mode: ParticipationMode,
    ) -> (r: Result<(), LobbyError>)
        ensures
            r == old(self)@.force_outcome(participant_id, host_id),
            r is Ok ==> final(self)@ == (LobbyView {
                participants: old(self)@.participants.insert(
                    participant_id,
                    with_mode(old(self)@.participants[participant_id], mode),
                ),
                ..old(self)@
            }),
            r is Err ==> final(self)@ == old(self)@,
    {
        match self.participants.get(&host_id) {
            None => {
                return Err(LobbyError::ParticipantNotFound(host_id));
            },
            Some(requester) => {
                proof {
                    assert(self@.participants.contains_key(host_id));
                }
                if !requester.is_host() {
                    return Err(LobbyError::PermissionDenied);
                }
            },
        }
        self.set_participant_mode(participant_id, mode)
    }

    /// Sets the participation mode of `participant_id`, with no check of who
    /// asks (for copies that follow the host's decisions); refused, with
    /// nothing changed, for an unknown id.
    pub fn set_participant_mode(&mut self, participant_id: Uuid, mode: ParticipationMode) -> (r:
        Result<(), LobbyError>)
        ensures
            !old(self)@.participants.contains_key(participant_id) ==> r == Err::<(), LobbyError>(
                LobbyError::ParticipantNotFound(participant_id),
            ) && final(self)@ == old(self)@,
            old(self)@.participants.contains_key(participant_id) ==> r == Ok::<(), LobbyError>(())
                && final(self)@ == (
            LobbyView {
                participants: old(self)@.participants.insert(
                    participant_id,
                    with_mode(old(self)@.participants[participant_id], mode),
                ),
                ..old(self)@
            }),
    {
        let ghost old_map = self.participants@;
        let mut participant = match self.participants.remove(&participant_id) {
            None => {
                proof {
                    assert(self.participants@ =~= old_map);
                }
                return Err(LobbyError::ParticipantNotFound(participant_id));
            },
            Some(p) => p,
        };
        participant.force_participation_mode(mode);
        self.participants.insert(participant_id, participant);
        proof {
            assert(participant_views(self.participants@) =~= participant_views(old_map).insert(
                participant_id,
                with_mode(old_map[participant_id]@, mode),
            ));
        }
        Ok(())
    }

    /// The participants that can submit results, one per entry, in the map's order.
    pub fn active_participants(&self) -> (v: Vec<&Participant>)
        ensures
            exists|ks: Seq<Uuid>|
                {
                    &&& ks.no_duplicates()
                    &&& ks.to_set() == Set::new(|k: Uuid| self@.is_active_key(k))
                    &&& ks.len() == v@.len()
                    &&& forall|i: int|
                        0 <= i < ks.len() ==> #[trigger] self@.participants[ks[i]] == v@[i]@
                },
    {
        let keys = crate::keys::map_keys(&self.participants);
        let mut v: Vec<&Participant> = Vec::new();
        let ghost pred = |u: Uuid| self@.is_active_key(u);
        let ghost mut ks: Seq<Uuid> = Seq::empty();
        let mut i: usize = 0;
        while i < keys.len()
            invariant
                i <= keys@.len(),
                keys@.no_duplicates(),
                keys@.to_set() == self.participants@.dom(),
                pred == (|u: Uuid| self@.is_active_key(u)),
                ks == keys@.take(i as int).filter(pred),
                ks.no_duplicates(),
                ks.len() == v@.len(),
                forall|j: int| 0 <= j < ks.len() ==> #[trigger] self@.participants[ks[j]] == v@[j]@,
            decreases keys.len() - i,
        {
            let k = keys[i];
            proof {
                broadcast use vstd::seq_lib::group_filter_ensures;

                assert(keys@.take(i + 1) =~= keys@.take(i as int).push(k));
                keys@.take(i as int).lemma_filter_push(k, pred);
                assert(keys@.to_set().contains(k));
                if ks.contains(k) {
                    keys@.take(i as int).lemma_filter_contains_rev(pred, k);
                    let m = choose|m: int| 0 <= m < i && keys@.take(i as int)[m] == k;
                    assert(keys@[m] == keys@[i as int]);
                }
            }
            match self.participants.get(&k) {
                Some(p) => {
                    proof {
                        assert(self@.participants.contains_key(k));
                    }
                    if p.can_submit_results() {
                        v.push(p);
                        proof {
                            ks = ks.push(k);
                        }
                    }
                },
                None => {},
            }
            i += 1;
        }
        proof {
            broadcast use vstd::seq_lib::group_filter_ensures;

            assert(keys@.take(keys@.len() as int) =~= keys@);
            assert forall|u: Uuid| #[trigger] ks.contains(u) <==> self@.is_active_key(u) by {
                if self@.is_active_key(u) {
                    assert(keys@.to_set().contains(u));
                    let m = choose|m: int| 0 <= m < keys@.len() && keys@[m] == u;
                    keys@.lemma_filter_contains(pred, m);
                }
            }
            assert(ks.to_set() =~= Set::new(|k: Uuid| self@.is_active_key(k)));
        }
        v
    }

    /// The ids that the active participants hold: who must submit when a
    /// run starts.
    pub fn active_participant_ids(&self) -> (s: HashSet<Uuid>)
        ensures
            s@ == self@.active_ids(),
    {
        let mut s: HashSet<Uuid> = HashSet::new();
        for k in it: self.participants.keys()
            invariant
                forall|u: Uuid|
                    #[trigger] s@.contains(u) <==> exists|j: int|
                        0 <= j < it.index@ && self@.is_active_key(*it.seq()[j])
                            && self@.participants[*it.seq()[j]].id == u,
        {
            match self.participants.get(k) {
                Some(p) => {
                    proof {
                        assert(self@.participants.contains_key(*k));
                    }
                    if p.can_submit_results() {
                        s.insert(p.id());
                    }
                },
                None => {},
            }
        }
        proof {
            assert(s@ =~= self@.active_ids());
        }
        s
    }

    /// Appends an activity to the queue; refused, with nothing changed, when
    /// an activity with the same id is queued.
    pub fn queue_activity(&mut self, config: ActivityConfig) -> (r: Result<(), LobbyError>)
        ensures
            old(self)@.queue_has(config.id) ==> r == Err::<(), LobbyError>(
                LobbyError::ActivityAlreadyExists(config.id),
            ) && final(self)@ == old(self)@,
            !old(self)@.queue_has(config.id) ==> r == Ok::<(), LobbyError>(()) && final(self)@ == (
            LobbyView { queue: old(self)@.queue.push(config), ..old(self)@ }),
    {
        let mut i: usize = 0;
        while i < self.activity_queue.len()
            invariant
                i <= self.activity_queue@.len(),
                forall|j: int| 0 <= j < i ==> self.activity_queue@[j].id != config.id,
            decreases self.activity_queue@.len() - i,
        {
            if self.activity_queue[i].id == config.id {
                return Err(LobbyError::ActivityAlreadyExists(config.id));
            }
            i += 1;
        }
        self.activity_queue.push(config);
        Ok(())
    }

    /// Removes the queued activity with this id (the first such); refused,
    /// with nothing changed, when none is queued.
    pub fn remove_queued_activity(&mut self, activity_id: ActivityId) -> (r: Result<(), LobbyError>)
        ensures
            !old(self)@.queue_has(activity_id) ==> r == Err::<(), LobbyError>(
                LobbyError::ActivityNotFound(activity_id),
            ) && final(self)@ == old(self)@,
            old(self)@.queue_has(activity_id) ==> r == Ok::<(), LobbyError>(()) && exists|pos: int|
                {
                    &&& 0 <= pos < old(self)@.queue.len()
                    &&& old(self)@.queue[pos].id == activity_id
                    &&& forall|j: int| 0 <= j < pos ==> old(self)@.queue[j].id != activity_id
                    &&& final(self)@ == (LobbyView {
                        queue: old(self)@.queue.remove(pos),
                        ..old(self)@
                    })
                },
    {
        match self.queue_position(activity_id) {
            None => Err(LobbyError::ActivityNotFound(activity_id)),
            Some(pos) => {
                self.activity_queue.remove(pos);
                proof {
                    assert(self@ == (LobbyView { queue: old(self)@.queue.remove(pos as int), ..old(self)@ }));
                }
                Ok(())
            },
        }
    }

    /// The position of the first queued activity with this id.
    fn queue_position(&self, activity_id: ActivityId) -> (r: Option<usize>)
        ensures
            match r {
                Some(pos) => pos < self@.queue.len() && self@.queue[pos as int].id == activity_id
                    && forall|j: int| 0 <= j < pos ==> self@.queue[j].id != activity_id,
                None => !self@.queue_has(activity_id),
            },
    {
        let mut i: usize = 0;
        while i < self.activity_queue.len()
            invariant
                i <= self.activity_queue@.len(),
                forall|j: int| 0 <= j < i ==> self.activity_queue@[j].id != activity_id,
            decreases self.activity_queue@.len() - i,
        {
            if self.activity_queue[i].id == activity_id {
                return Some(i);
            }
            i += 1;
        }
        None
    }

    /// Takes the next activity off the queue so that a run can be made of
    /// it; refused, with nothing changed, while a run is in progress or
    /// when the queue is empty.
    pub fn dequeue_next_activity(&mut self) -> (r: Result<ActivityConfig, LobbyError>)
        ensures
            old(self)@.active_run is Some ==> r == Err::<ActivityConfig, LobbyError>(
                LobbyError::RunAlreadyInProgress,
            ) && final(self)@ == old(self)@,
            old(self)@.active_run is None && old(self)@.queue.len() == 0 ==> r == Err::<
                ActivityConfig,
                LobbyError,
            >(LobbyError::EmptyQueue) && final(self)@ == old(self)@,
            old(self)@.active_run is None && old(self)@.queue.len() > 0 ==> r == Ok::<
                ActivityConfig,
                LobbyError,
            >(old(self)@.queue[0]) && final(self)@ == (LobbyView {
                queue: old(self)@.queue.drop_first(),
                ..old(self)@
            }),
    {
        if self.active_run_id.is_some() {
            return Err(LobbyError::RunAlreadyInProgress);
        }
        if self.activity_queue.len() == 0 {
            return Err(LobbyError::EmptyQueue);
        }
        let c = self.activity_queue.remove(0);
        proof {
            assert(self.activity_queue@ =~= old(self)@.queue.drop_first());
        }
        Ok(c)
    }

    /// Records the run in progress; refused, with nothing changed, while
    /// another is in progress.
    pub fn set_active_run(&mut self, run_id: ActivityRunId) -> (r: Result<(), LobbyError>)
        ensures
            old(self)@.active_run is Some ==> r == Err::<(), LobbyError>(
                LobbyError::RunAlreadyInProgress,
            ) && final(self)@ == old(self)@,
            old(self)@.active_run is None ==> r == Ok::<(), LobbyError>(()) && final(self)@ == (
            LobbyView { active_run: Some(run_id), ..old(self)@ }),
    {
        if self.active_run_id.is_some() {
            return Err(LobbyError::RunAlreadyInProgress);
        }
        self.active_run_id = Some(run_id);
        Ok(())
    }

    /// Records that no run is in progress.
    pub fn clear_active_run(&mut self)
        ensures
            final(self)@ == (LobbyView { active_run: None, ..old(self)@ }),
    {
        self.active_run_id = None;
    }

    /// The participants by id, for changing them in place.
    pub fn participants_mut(&mut self) -> (m: &mut HashMap<Uuid, Participant>)
        ensures
            m@ == old(self).participant_map(),
            final(self)@ == (LobbyView { participants: participant_views(final(m)@), ..old(self)@ }),
    {
        &mut self.participants
    }
}

} // verus!
