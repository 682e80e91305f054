//! Settings for building P2P loops, session loops and transports, and the
//! room address they connect to.

use vstd::prelude::*;
use crate::ident::{Uuid, uuid_string, uuid_text};
use crate::p2p::session_id::SessionId;
use crate::p2p::error::{P2PError, send_failed, connection_failed};
use crate::domain::participant::name_error;
use crate::application::commands::{DomainCommand, DomainCommandView};
use crate::application::command_queue::{CommandQueueView, QueueError};
use crate::application::domain_loop::{DomainLoop, DomainLoopView, run_steps};
use crate::application::event_loop::{Fresh, LoopView, fits};
use crate::application::events::DomainEvent;

verus! {

/// The signalling room of a session: the server's address, a slash, and
/// the session id as text.
pub fn room_url(signalling_server: &str, session_id: &SessionId) -> (url: String)
    ensures
        url@ == signalling_server@ + "/"@ + uuid_text(session_id.0),
{
    let id = uuid_string(session_id.0);
    let url = String::from_str(signalling_server).concat("/").concat(id.as_str());
    url
}

/// `d` is a loop in which only the command `CreateLobby` for `lobby_id`,
/// named `lobby_name` with a host named `host_name`, has been handled, with
/// some fresh values, and whose events were taken.
pub open spec fn hosts_created_lobby(
    d: DomainLoopView,
    lobby_id: Uuid,
    lobby_name: Seq<char>,
    host_name: Seq<char>,
    batch_size: usize,
    queue_size: usize,
) -> bool {
    exists|c: DomainCommand, f: Fresh|
        {
            &&& c@ == (DomainCommandView::CreateLobby {
                lobby_id: Some(lobby_id),
                lobby_name,
                host_name,
            })
            &&& d == (DomainLoopView {
                state: #[trigger] LoopView { lobbies: Map::empty(), runs: Map::empty() }.step(c, f).0,
                inbound: CommandQueueView { items: Seq::empty(), max_size: queue_size },
                outbound: Seq::empty(),
                batch_size,
            })
        }
}

/// The domain side of a new host: a loop that handles `batch_size`
/// commands per poll and queues up to `queue_size`, in which the lobby
/// `lobby_id` has been created with a host named `host_name`. Fails when
/// the command does not fit the queue, and when no lobby was created (no
/// command is handled per poll, or the host's name is refused).
pub fn host_domain(batch_size: usize, queue_size: usize, lobby_id: Uuid, lobby_name: String, host_name: String) -> (r:
    Result<DomainLoop, P2PError>)
    ensures
        queue_size == 0 ==> send_failed(r, QueueError::Full { max: 0 }.message_spec()),
        queue_size > 0 && (batch_size == 0 || name_error(host_name@) is Some) ==> connection_failed(
            r,
            "Failed to create lobby"@,
        ),
        queue_size > 0 && batch_size > 0 && name_error(host_name@) is None ==> match r {
            Ok(d) => hosts_created_lobby(d@, lobby_id, lobby_name@, host_name@, batch_size, queue_size),
            Err(_) => false,
        },
{
    let mut domain = DomainLoop::new(batch_size, queue_size);
    let ghost ln = lobby_name@;
    let ghost hn = host_name@;
    let cmd = DomainCommand::CreateLobby { lobby_id: Some(lobby_id), lobby_name, host_name };
    let ghost c = cmd;
    match domain.submit(cmd) {
        Ok(()) => {},
        Err(e) => {
            return Err(P2PError::SendFailed(e.message()));
        },
    }
    let ghost d1 = domain@;
    let n = domain.poll();
    let ghost d2 = domain@;
    let events = domain.drain_events();
    let mut found = false;
    let mut i: usize = 0;
    while i < events.len()
        invariant
            i <= events@.len(),
            found == exists|j: int| 0 <= j < i && (#[trigger] events@[j])@ is LobbyCreated,
        decreases events@.len() - i,
    {
        match &events[i] {
            DomainEvent::LobbyCreated { .. } => {
                found = true;
            },
            _ => {},
        }
        i += 1;
    }
    proof {
        let empty = LoopView { lobbies: Map::empty(), runs: Map::empty() };
        assert(d1.inbound.items =~= seq![c]);
        assert(d1.state == empty);
        reveal_with_fuel(run_steps, 2);
        if queue_size > 0 && batch_size > 0 {
            assert(n == 1);
            assert(d1.inbound.items.take(1) =~= seq![c]);
            let fs = choose|fs: Seq<Fresh>|
                {
                    let (s, answers) = #[trigger] run_steps(d1.state, d1.inbound.items.take(n as int), fs);
                    &&& fs.len() == n
                    &&& d2.state == s
                    &&& answers.len() == n
                    &&& forall|i: int|
                        0 <= i < n ==> fits(d2.outbound[d1.outbound.len() + i], #[trigger] answers[i])
                };
            let f = fs[0];
            let (s1, a1) = empty.step(c, f);
            assert(seq![c].drop_first() =~= Seq::<DomainCommand>::empty());
            assert(run_steps(d1.state, seq![c], fs).1[0] == a1);
            assert(events@[0]@ == d2.outbound[0]);
            if name_error(hn) is None {
                assert(events@[0]@ is LobbyCreated);
                assert(domain@.inbound.items =~= Seq::<DomainCommand>::empty());
                assert(c@ == (DomainCommandView::CreateLobby { lobby_id: Some(lobby_id), lobby_name: ln, host_name: hn }));
                assert(hosts_created_lobby(domain@, lobby_id, ln, hn, batch_size, queue_size));
            } else {
                assert(!(events@[0]@ is LobbyCreated));
                assert(events@.len() == 1);
            }
        } else if queue_size > 0 {
            assert(events@.len() == 0);
        }
    }
    if !found {
        return Err(P2PError::ConnectionFailed(String::from_str("Failed to create lobby")));
    }
    Ok(domain)
}

/// Settings for a P2P loop: events per poll and queue size.
#[derive(Debug, Clone, Copy, PartialEq, Eq, Structural)]
pub struct P2PLoopBuilder {
    pub batch_size: usize,
    pub queue_size: usize,
}

impl P2PLoopBuilder {
    /// Batches of 10, queues of 100.
    pub fn new() -> (b: Self)
        ensures
            b == (P2PLoopBuilder { batch_size: 10, queue_size: 100 }),
    {
        P2PLoopBuilder { batch_size: 10, queue_size: 100 }
    }

    pub fn batch_size(self, size: usize) -> (b: Self)
        ensures
            b == (P2PLoopBuilder { batch_size: size, ..self }),
    {
        P2PLoopBuilder { batch_size: size, ..self }
    }

    pub fn queue_size(self, size: usize) -> (b: Self)
        ensures
            b == (P2PLoopBuilder { queue_size: size, ..self }),
    {
        P2PLoopBuilder { queue_size: size, ..self }
    }
}

impl Default for P2PLoopBuilder {
    fn default() -> (b: Self)
        ensures
            b == (P2PLoopBuilder { batch_size: 10, queue_size: 100 }),
    {
        Self::new()
    }
}

/// Settings for a session loop over a transport: commands per poll, queue
/// size and how many sent messages are kept for resending.
#[derive(Debug, Clone, Copy, PartialEq, Eq, Structural)]
pub struct SessionLoopV2Builder {
    pub batch_size: usize,
    pub queue_size: usize,
    pub cache_size: usize,
}

impl SessionLoopV2Builder {
    /// Batches of 10, queues of 100, caches of 100.
    pub fn new() -> (b: Self)
        ensures
            b == (SessionLoopV2Builder { batch_size: 10, queue_size: 100, cache_size: 100 }),
    {
        SessionLoopV2Builder { batch_size: 10, queue_size: 100, cache_size: 100 }
    }

    pub fn batch_size(self, size: usize) -> (b: Self)
        ensures
            b == (SessionLoopV2Builder { batch_size: size, ..self }),
    {
        SessionLoopV2Builder { batch_size: size, ..self }
    }

    pub fn queue_size(self, size: usize) -> (b: Self)
        ensures
            b == (SessionLoopV2Builder { queue_size: size, ..self }),
    {
        SessionLoopV2Builder { queue_size: size, ..self }
    }

    pub fn cache_size(self, size: usize) -> (b: Self)
        ensures
            b == (SessionLoopV2Builder { cache_size: size, ..self }),
    {
        SessionLoopV2Builder { cache_size: size, ..self }
    }
}

impl Default for SessionLoopV2Builder {
    fn default() -> (b: Self)
        ensures
            b == (SessionLoopV2Builder { batch_size: 10, queue_size: 100, cache_size: 100 }),
    {
        Self::new()
    }
}

/// Settings for a transport: how many sent messages are kept for resending.
#[derive(Debug, Clone, Copy, PartialEq, Eq, Structural)]
pub struct P2PTransportBuilder {
    pub cache_size: usize,
}

impl P2PTransportBuilder {
    /// Caches of 100.
    pub fn new() -> (b: Self)
        ensures
            b == (P2PTransportBuilder { cache_size: 100 }),
    {
        P2PTransportBuilder { cache_size: 100 }
    }

    pub fn cache_size(self, size: usize) -> (b: Self)
        ensures
            b == (P2PTransportBuilder { cache_size: size }),
    {
        P2PTransportBuilder { cache_size: size }
    }
}

impl Default for P2PTransportBuilder {
    fn default() -> (b: Self)
        ensures
            b == (P2PTransportBuilder { cache_size: 100 }),
    {
        Self::new()
    }
}

} // verus!
