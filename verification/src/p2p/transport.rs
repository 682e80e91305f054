//! Reliable, ordered delivery over an unordered network: the host numbers
//! application messages and keeps the last ones for resending; receivers
//! deliver them in order, buffer what arrives early and ask for the gaps.
//!
//! The transport decides; the network work is done by its caller, which
//! hands it what arrived and sends what it queued.

use vstd::prelude::*;
use std::collections::{HashMap, VecDeque};
use crate::p2p::peer::PeerId;
use crate::p2p::error::{P2PError, send_failed};
use crate::json::clone_json;

verus! {

broadcast use vstd::std_specs::hash::group_hash_axioms;

/// Kinds of messages: application payloads and control messages.
#[derive(Debug)]
pub enum MessageKind {
    /// An application payload, opaque to the transport.
    Application { payload: serde_json::Value },
    /// Guest to host: send the full state.
    SnapshotRequest,
    /// Host to guest: the full state, as of a sequence number.
    SnapshotResponse { snapshot: serde_json::Value, as_of_sequence: u64 },
    /// Ask for the messages numbered `from` to `to` again.
    ResendRequest { from: u64, to: u64 },
    /// Messages sent again.
    ResendResponse { messages: Vec<P2PMessage> },
}

/// A message on the wire: a sequence number (0 when it has none) and its kind.
#[derive(Debug)]
pub struct P2PMessage {
    pub sequence: u64,
    pub kind: MessageKind,
}

/// What a message kind is; the messages of a resend response are kept as
/// they are.
pub enum MessageKindView {
    Application { payload: serde_json::Value },
    SnapshotRequest,
    SnapshotResponse { snapshot: serde_json::Value, as_of_sequence: u64 },
    ResendRequest { from: u64, to: u64 },
    ResendResponse { messages: Seq<P2PMessage> },
}

pub struct P2PMessageView {
    pub sequence: u64,
    pub kind: MessageKindView,
}

impl View for P2PMessage {
    type V = P2PMessageView;

    open spec fn view(&self) -> P2PMessageView {
        P2PMessageView {
            sequence: self.sequence,
            kind: match self.kind {
                MessageKind::Application { payload } => MessageKindView::Application { payload },
                MessageKind::SnapshotRequest => MessageKindView::SnapshotRequest,
                MessageKind::SnapshotResponse { snapshot, as_of_sequence } => {
                    MessageKindView::SnapshotResponse { snapshot, as_of_sequence }
                },
                MessageKind::ResendRequest { from, to } => MessageKindView::ResendRequest { from, to },
                MessageKind::ResendResponse { messages } => MessageKindView::ResendResponse {
                    messages: messages@,
                },
            },
        }
    }
}

impl P2PMessage {
    /// An application message, not yet numbered.
    pub fn application(payload: serde_json::Value) -> (m: Self)
        ensures
            m == (P2PMessage { sequence: 0, kind: MessageKind::Application { payload } }),
    {
        P2PMessage { sequence: 0, kind: MessageKind::Application { payload } }
    }

    /// A request for the full state.
    pub fn snapshot_request() -> (m: Self)
        ensures
            m == (P2PMessage { sequence: 0, kind: MessageKind::SnapshotRequest }),
    {
        P2PMessage { sequence: 0, kind: MessageKind::SnapshotRequest }
    }

    /// The full state as of `as_of_sequence`.
    pub fn snapshot_response(snapshot: serde_json::Value, as_of_sequence: u64) -> (m: Self)
        ensures
            m == (P2PMessage {
                sequence: 0,
                kind: MessageKind::SnapshotResponse { snapshot, as_of_sequence },
            }),
    {
        P2PMessage { sequence: 0, kind: MessageKind::SnapshotResponse { snapshot, as_of_sequence } }
    }

    /// A request to send the messages numbered `from` to `to` again.
    pub fn resend_request(from: u64, to: u64) -> (m: Self)
        ensures
            m == (P2PMessage { sequence: 0, kind: MessageKind::ResendRequest { from, to } }),
    {
        P2PMessage { sequence: 0, kind: MessageKind::ResendRequest { from, to } }
    }
}

/// What the transport reports to the session above it.
#[derive(Debug)]
pub enum TransportEvent {
    /// A peer connected (the host sends it a snapshot).
    PeerConnected(PeerId),
    /// A peer asked for a snapshot.
    SnapshotRequested { from: PeerId },
    /// A snapshot arrived.
    SnapshotReceived { snapshot: serde_json::Value, as_of_sequence: u64 },
}

/// A message the transport asks its caller to send.
#[derive(Debug)]
pub enum Outgoing {
    /// To every connected peer.
    Broadcast(P2PMessage),
    /// To one peer.
    SendTo(PeerId, P2PMessage),
}

pub enum OutgoingView {
    Broadcast(P2PMessageView),
    SendTo(PeerId, P2PMessageView),
}

impl View for Outgoing {
    type V = OutgoingView;

    open spec fn view(&self) -> OutgoingView {
        match self {
            Outgoing::Broadcast(m) => OutgoingView::Broadcast(m@),
            Outgoing::SendTo(p, m) => OutgoingView::SendTo(*p, m@),
        }
    }
}

/// What arrived from the network, as the transport takes it; bytes that
/// are no message are dropped before.
#[derive(Debug)]
pub enum Incoming {
    PeerConnected(PeerId),
    Message { from: PeerId, message: P2PMessage },
}

/// An application message's view.
pub open spec fn app_view(sequence: u64, payload: serde_json::Value) -> P2PMessageView {
    P2PMessageView { sequence, kind: MessageKindView::Application { payload } }
}

/// The view of an unnumbered control message of the given kind.
pub open spec fn control_view(kind: MessageKindView) -> P2PMessageView {
    P2PMessageView { sequence: 0, kind }
}

/// Delivers from `pending` the message after `highest`, then the one after
/// it, for as long as they are there: the new highest number delivered, what
/// stays pending, and the payloads delivered, in order.
pub open spec fn drain_ready(highest: u64, pending: Map<u64, P2PMessage>) -> (
    u64,
    Map<u64, P2PMessage>,
    Seq<serde_json::Value>,
)
    decreases u64::MAX - highest,
{
    if highest < u64::MAX && pending.contains_key((highest + 1) as u64) && pending[(highest
        + 1) as u64].sequence == highest + 1 && pending[(highest + 1) as u64].kind is Application {
        let k = (highest + 1) as u64;
        let rest = drain_ready(k, pending.remove(k));
        (rest.0, rest.1, seq![pending[k].kind->payload] + rest.2)
    } else {
        (highest, pending, Seq::empty())
    }
}

/// What a transport is: the next number to assign (host), the highest
/// number delivered in order, the messages that arrived early, the last sent
/// messages kept for resending and how many are kept, whether it is the
/// host, the events for the session, and the messages queued for sending.
pub struct TransportView {
    pub next_sequence: u64,
    pub highest_received: u64,
    pub pending: Map<u64, P2PMessage>,
    pub cache: Seq<P2PMessage>,
    pub cache_size: usize,
    pub is_host: bool,
    pub events: Seq<TransportEvent>,
    pub outbox: Seq<OutgoingView>,
}

impl TransportView {
    /// Buffered messages are application messages filed under their own
    /// number; the cache holds application messages only and no more than
    /// its size; the host numbers from 1.
    pub open spec fn wf(self) -> bool {
        &&& forall|k: u64| #[trigger]
            self.pending.contains_key(k) ==> self.pending[k].sequence == k
                && self.pending[k].kind is Application
        &&& forall|i: int| 0 <= i < self.cache.len() ==> (#[trigger] self.cache[i]).kind is Application
        &&& self.cache.len() <= self.cache_size
        &&& self.is_host ==> self.next_sequence >= 1
    }

    /// The state and the delivered payloads after an application message
    /// numbered `sequence` arrives: unnumbered ones are delivered at once;
    /// the next expected one is delivered with the buffered ones that follow
    /// it; a later one is buffered and the gap before it is asked for again;
    /// an older one is ignored.
    pub open spec fn receive_app(self, sequence: u64, payload: serde_json::Value) -> (
        TransportView,
        Seq<serde_json::Value>,
    ) {
        if sequence == 0 {
            (self, seq![payload])
        } else if sequence == self.highest_received + 1 {
            let d = drain_ready(sequence, self.pending);
            (TransportView { highest_received: d.0, pending: d.1, ..self }, seq![payload] + d.2)
        } else if sequence > self.highest_received + 1 {
            (
                TransportView {
                    pending: self.pending.insert(
                        sequence,
                        P2PMessage { sequence, kind: MessageKind::Application { payload } },
                    ),
                    outbox: self.outbox.push(
                        OutgoingView::Broadcast(
                            control_view(
                                MessageKindView::ResendRequest {
                                    from: (self.highest_received + 1) as u64,
                                    to: (sequence - 1) as u64,
                                },
                            ),
                        ),
                    ),
                    ..self
                },
                Seq::empty(),
            )
        } else {
            (self, Seq::empty())
        }
    }

    /// Each application message of `msgs`, received in order.
    pub open spec fn receive_all(self, msgs: Seq<P2PMessage>) -> (TransportView, Seq<serde_json::Value>)
        decreases msgs.len(),
    {
        if msgs.len() == 0 {
            (self, Seq::empty())
        } else {
            let r = self.receive_all(msgs.drop_last());
            let m = msgs.last();
            match m.kind {
                MessageKind::Application { payload } => {
                    let r2 = r.0.receive_app(m.sequence, payload);
                    (r2.0, r.1 + r2.1)
                },
                _ => r,
            }
        }
    }

    /// The cached messages numbered from `from` to `to`, in order.
    pub open spec fn cached_between(self, from: u64, to: u64) -> Seq<P2PMessage> {
        self.cache.filter(|m: P2PMessage| from <= m.sequence && m.sequence <= to)
    }

    /// The state after `peer` asks for messages `from` to `to` again: the
    /// host sends it those it still has, if any; others ignore the request.
    pub open spec fn answer_resend(self, from: u64, to: u64, peer: PeerId) -> TransportView {
        if self.is_host && self.cached_between(from, to).len() > 0 {
            TransportView {
                outbox: self.outbox.push(
                    OutgoingView::SendTo(
                        peer,
                        control_view(
                            MessageKindView::ResendResponse { messages: self.cached_between(from, to) },
                        ),
                    ),
                ),
                ..self
            }
        } else {
            self
        }
    }

    /// The state and the delivered payloads after one arrival.
    pub open spec fn on_incoming(self, inc: Incoming) -> (TransportView, Seq<serde_json::Value>) {
        match inc {
            Incoming::PeerConnected(p) => (
                TransportView { events: self.events.push(TransportEvent::PeerConnected(p)), ..self },
                Seq::empty(),
            ),
            Incoming::Message { from, message } => match message.kind {
                MessageKind::Application { payload } => self.receive_app(message.sequence, payload),
                MessageKind::SnapshotRequest => (
                    TransportView {
                        events: self.events.push(TransportEvent::SnapshotRequested { from }),
                        ..self
                    },
                    Seq::empty(),
                ),
                MessageKind::SnapshotResponse { snapshot, as_of_sequence } => (
                    TransportView {
                        events: self.events.push(
                            TransportEvent::SnapshotReceived { snapshot, as_of_sequence },
                        ),
                        ..self
                    },
                    Seq::empty(),
                ),
                MessageKind::ResendRequest { from: a, to: b } => (
                    self.answer_resend(a, b, from),
                    Seq::empty(),
                ),
                MessageKind::ResendResponse { messages } => self.receive_all(messages@),
            },
        }
    }

    /// The state and the delivered payloads after the arrivals `incs`, in order.
    pub open spec fn on_all(self, incs: Seq<Incoming>) -> (TransportView, Seq<serde_json::Value>)
        decreases incs.len(),
    {
        if incs.len() == 0 {
            (self, Seq::empty())
        } else {
            let r = self.on_all(incs.drop_last());
            let r2 = r.0.on_incoming(incs.last());
            (r2.0, r.1 + r2.1)
        }
    }
}

/// The cache after `m` is kept: it is added last, and the oldest message
/// is dropped when more than `size` are kept.
pub open spec fn keep_last(cache: Seq<P2PMessage>, m: P2PMessage, size: usize) -> Seq<P2PMessage> {
    if cache.len() + 1 > size {
        cache.push(m).drop_first()
    } else {
        cache.push(m)
    }
}

/// What `drain_ready` delivers is, in order, the payloads of the buffered
/// messages numbered one after another from the one after `highest`; it
/// removes exactly those from the buffer and moves `highest` past them.
pub proof fn lemma_drain_ready(highest: u64, pending: Map<u64, P2PMessage>)
    requires
        forall|k: u64| #[trigger]
            pending.contains_key(k) ==> pending[k].sequence == k && pending[k].kind is Application,
    ensures
        ({
            let d = drain_ready(highest, pending);
            &&& d.0 == highest + d.2.len()
            &&& forall|i: int|
                0 <= i < d.2.len() ==> #[trigger] d.2[i] == pending[(highest + 1 + i) as u64].kind->payload
            &&& forall|k: u64| highest < k <= d.0 ==> #[trigger] pending.contains_key(k)
            &&& forall|k: u64|
                #[trigger] d.1.contains_key(k) <==> pending.contains_key(k) && !(highest < k
                    && k <= d.0)
            &&& forall|k: u64| #[trigger] d.1.contains_key(k) ==> d.1[k] == pending[k]
        }),
    decreases u64::MAX - highest,
{
    if highest < u64::MAX && pending.contains_key((highest + 1) as u64) && pending[(highest
        + 1) as u64].sequence == highest + 1 && pending[(highest + 1) as u64].kind is Application {
        let k = (highest + 1) as u64;
        lemma_drain_ready(k, pending.remove(k));
        let rest = drain_ready(k, pending.remove(k));
        let d = drain_ready(highest, pending);
        assert forall|i: int| 0 <= i < d.2.len() implies #[trigger] d.2[i] == pending[(highest + 1
            + i) as u64].kind->payload by {
            if i > 0 {
                assert(d.2[i] == rest.2[i - 1]);
                assert((k + 1 + (i - 1)) as u64 == (highest + 1 + i) as u64);
            }
        }
        assert forall|j: u64| highest < j <= d.0 implies #[trigger] pending.contains_key(j) by {
            if j != k {
                assert(pending.remove(k).contains_key(j));
            }
        }
    } else {
        assert(drain_ready(highest, pending).2.len() == 0);
    }
}

/// Messages are delivered in order, without loss or repetition: when the
/// next expected application message arrives, it is delivered first, then
/// the buffered messages numbered right after it, one after another; the
/// highest delivered number moves past all of them and they leave the
/// buffer. A message from further ahead delivers nothing, is buffered, and
/// exactly the missing numbers are asked for again. An old one changes
/// nothing.
pub proof fn lemma_receive_in_order(t: TransportView, sequence: u64, payload: serde_json::Value)
    requires
        t.wf(),
        sequence != 0,
    ensures
        t.receive_app(sequence, payload).0.wf(),
        sequence == t.highest_received + 1 ==> {
            let r = t.receive_app(sequence, payload);
            &&& r.1.len() >= 1
            &&& r.1[0] == payload
            &&& r.0.highest_received == t.highest_received + r.1.len()
            &&& forall|i: int|
                1 <= i < r.1.len() ==> #[trigger] r.1[i] == t.pending[(t.highest_received + 1
                    + i) as u64].kind->payload
            &&& forall|k: u64|
                #[trigger] r.0.pending.contains_key(k) ==> !(sequence < k
                    && k <= r.0.highest_received)
        },
        sequence > t.highest_received + 1 ==> {
            let r = t.receive_app(sequence, payload);
            &&& r.1.len() == 0
            &&& r.0.highest_received == t.highest_received
            &&& r.0.outbox == t.outbox.push(
                OutgoingView::Broadcast(
                    control_view(
                        MessageKindView::ResendRequest {
                            from: (t.highest_received + 1) as u64,
                            to: (sequence - 1) as u64,
                        },
                    ),
                ),
            )
        },
        sequence <= t.highest_received ==> t.receive_app(sequence, payload) == (t, Seq::<
            serde_json::Value,
        >::empty()),
{
    if sequence == t.highest_received + 1 {
        lemma_drain_ready(sequence, t.pending);
        let d = drain_ready(sequence, t.pending);
        let r = t.receive_app(sequence, payload);
        assert forall|i: int| 1 <= i < r.1.len() implies #[trigger] r.1[i] == t.pending[(
        t.highest_received + 1 + i) as u64].kind->payload by {
            assert(r.1[i] == d.2[i - 1]);
            assert((sequence + 1 + (i - 1)) as u64 == (t.highest_received + 1 + i) as u64);
        }
    }
}

/// A host answers a request for the messages `from` to `to` with exactly
/// the cached messages whose numbers lie in that inclusive range, each of
/// them and nothing else, sent to the peer that asked; when it has none of
/// them, or is not the host, nothing is sent.
pub proof fn lemma_resend_answers_range(t: TransportView, from: u64, to: u64, peer: PeerId)
    ensures
        ({
            let in_range = exists|i: int| 0 <= i < t.cache.len() && from <= (#[trigger] t.cache[i]).sequence <= to;
            if t.is_host && in_range {
                exists|ms: Seq<P2PMessage>|
                    {
                        &&& t.answer_resend(from, to, peer) == (TransportView {
                            outbox: t.outbox.push(
                                OutgoingView::SendTo(
                                    peer,
                                    P2PMessageView { sequence: 0, kind: MessageKindView::ResendResponse { messages: ms } },
                                ),
                            ),
                            ..t
                        })
                        &&& forall|i: int|
                            0 <= i < t.cache.len() && from <= (#[trigger] t.cache[i]).sequence <= to ==> ms.contains(t.cache[i])
                        &&& forall|j: int|
                            0 <= j < ms.len() ==> t.cache.contains(#[trigger] ms[j]) && from <= ms[j].sequence <= to
                    }
            } else {
                t.answer_resend(from, to, peer) == t
            }
        }),
{
    let pred = |m: P2PMessage| from <= m.sequence && m.sequence <= to;
    let ms = t.cached_between(from, to);
    assert(ms == t.cache.filter(pred));
    assert forall|i: int| 0 <= i < t.cache.len() && from <= (#[trigger] t.cache[i]).sequence <= to implies ms.contains(t.cache[i]) by {
        t.cache.lemma_filter_contains(pred, i);
    }
    assert forall|j: int| 0 <= j < ms.len() implies t.cache.contains(#[trigger] ms[j]) && from <= ms[j].sequence <= to by {
        t.cache.lemma_filter_pred(pred, j);
        assert(ms.contains(ms[j]));
        t.cache.lemma_filter_contains_rev(pred, ms[j]);
    }
    let in_range = exists|i: int| 0 <= i < t.cache.len() && from <= (#[trigger] t.cache[i]).sequence <= to;
    if in_range {
        let i = choose|i: int| 0 <= i < t.cache.len() && from <= (#[trigger] t.cache[i]).sequence <= to;
        assert(ms.contains(t.cache[i]));
        assert(ms.len() > 0);
        if t.is_host {
            assert(t.answer_resend(from, to, peer) == (TransportView {
                outbox: t.outbox.push(
                    OutgoingView::SendTo(
                        peer,
                        P2PMessageView { sequence: 0, kind: MessageKindView::ResendResponse { messages: ms } },
                    ),
                ),
                ..t
            }));
        }
    } else {
        if ms.len() > 0 {
            assert(t.cache.contains(ms[0]));
            let k = choose|k: int| 0 <= k < t.cache.len() && t.cache[k] == ms[0];
            assert(from <= t.cache[k].sequence <= to);
        }
    }
}

/// Ordering, gap requests and resending for one peer of a session.
pub struct P2PTransport {
    next_sequence: u64,
    highest_received: u64,
    pending_messages: HashMap<u64, P2PMessage>,
    message_cache: VecDeque<P2PMessage>,
    cache_size: usize,
    is_host: bool,
    pending_events: Vec<TransportEvent>,
    outbox: Vec<Outgoing>,
}

/// The views of queued messages.
pub open spec fn outgoing_views(s: Seq<Outgoing>) -> Seq<OutgoingView> {
    s.map_values(|o: Outgoing| o@)
}

impl View for P2PTransport {
    type V = TransportView;

    closed spec fn view(&self) -> TransportView {
        TransportView {
            next_sequence: self.next_sequence,
            highest_received: self.highest_received,
            pending: self.pending_messages@,
            cache: self.message_cache@,
            cache_size: self.cache_size,
            is_host: self.is_host,
            events: self.pending_events@,
            outbox: outgoing_views(self.outbox@),
        }
    }
}

impl P2PTransport {
    pub open spec fn wf(&self) -> bool {
        self@.wf()
    }

    /// A host's transport, numbering from 1 and keeping the last
    /// `cache_size` messages.
    pub fn new_host(cache_size: usize) -> (t: Self)
        ensures
            t.wf(),
            t@ == (TransportView {
                next_sequence: 1,
                highest_received: 0,
                pending: Map::empty(),
                cache: Seq::empty(),
                cache_size,
                is_host: true,
                events: Seq::empty(),
                outbox: Seq::empty(),
            }),
    {
        let t = P2PTransport {
            next_sequence: 1,
            highest_received: 0,
            pending_messages: HashMap::new(),
            message_cache: VecDeque::new(),
            cache_size,
            is_host: true,
            pending_events: Vec::new(),
            outbox: Vec::new(),
        };
        proof {
            assert(t@.outbox =~= Seq::<OutgoingView>::empty());
        }
        t
    }

    /// A guest's transport; guests do not number messages.
    pub fn new_guest(cache_size: usize) -> (t: Self)
        ensures
            t.wf(),
            t@ == (TransportView {
                next_sequence: 0,
                highest_received: 0,
                pending: Map::empty(),
                cache: Seq::empty(),
                cache_size,
                is_host: false,
                events: Seq::empty(),
                outbox: Seq::empty(),
            }),
    {
        let t = P2PTransport {
            next_sequence: 0,
            highest_received: 0,
            pending_messages: HashMap::new(),
            message_cache: VecDeque::new(),
            cache_size,
            is_host: false,
            pending_events: Vec::new(),
            outbox: Vec::new(),
        };
        proof {
            assert(t@.outbox =~= Seq::<OutgoingView>::empty());
        }
        t
    }

    /// Numbers an application message and queues it for every peer (host
    /// only); it is kept for resending. Answers its number.
    pub fn send(&mut self, payload: serde_json::Value) -> (r: Result<u64, P2PError>)
        requires
            old(self).wf(),
            old(self)@.is_host ==> old(self)@.next_sequence < u64::MAX,
        ensures
            final(self).wf(),
            !old(self)@.is_host ==> final(self)@ == old(self)@ && send_failed(r, "Only host can broadcast messages"@),
            old(self)@.is_host ==> {
                let s = old(self)@.next_sequence;
                &&& r == Ok::<u64, P2PError>(s)
                &&& final(self)@ == (TransportView {
                    next_sequence: (s + 1) as u64,
                    cache: keep_last(
                        old(self)@.cache,
                        P2PMessage { sequence: s, kind: MessageKind::Application { payload } },
                        old(self)@.cache_size,
                    ),
                    outbox: old(self)@.outbox.push(OutgoingView::Broadcast(app_view(s, payload))),
                    ..old(self)@
                })
            },
    {
        if !self.is_host {
            return Err(P2PError::SendFailed(String::from_str("Only host can broadcast messages")));
        }
        let sequence = self.next_sequence;
        self.next_sequence = self.next_sequence + 1;
        let copy = clone_json(&payload);
        let ghost p = payload;
        let ghost out0 = self.outbox@;
        self.outbox.push(
            Outgoing::Broadcast(P2PMessage { sequence, kind: MessageKind::Application { payload: copy } }),
        );
        proof {
            assert(outgoing_views(self.outbox@) =~= outgoing_views(out0).push(
                OutgoingView::Broadcast(app_view(sequence, p)),
            ));
        }
        let ghost cache0 = self.message_cache@;
        self.message_cache.push_back(P2PMessage { sequence, kind: MessageKind::Application { payload } });
        if self.message_cache.len() > self.cache_size {
            self.message_cache.pop_front();
            proof {
                assert(self.message_cache@ =~= cache0.push(
                    P2PMessage { sequence, kind: MessageKind::Application { payload: p } },
                ).drop_first());
            }
        }
        Ok(sequence)
    }

    /// Queues an unnumbered application message for the host, taken to be
    /// the first of `connected_peers`; fails when no peer is connected.
    pub fn send_to_host(&mut self, payload: serde_json::Value, connected_peers: &Vec<PeerId>) -> (r:
        Result<(), P2PError>)
        requires
            old(self).wf(),
        ensures
            final(self).wf(),
            connected_peers@.len() == 0 ==> final(self)@ == old(self)@ && send_failed(r, "No host connected"@),
            connected_peers@.len() > 0 ==> r is Ok && final(self)@ == (TransportView {
                outbox: old(self)@.outbox.push(
                    OutgoingView::SendTo(connected_peers@[0], app_view(0, payload)),
                ),
                ..old(self)@
            }),
    {
        if connected_peers.len() == 0 {
            return Err(P2PError::SendFailed(String::from_str("No host connected")));
        }
        let host = connected_peers[0];
        let ghost out0 = self.outbox@;
        let ghost p = payload;
        self.outbox.push(Outgoing::SendTo(host, P2PMessage::application(payload)));
        proof {
            assert(outgoing_views(self.outbox@) =~= outgoing_views(out0).push(
                OutgoingView::SendTo(host, app_view(0, p)),
            ));
        }
        Ok(())
    }

    /// Queues the full state for one peer, as of the last assigned number
    /// (host only).
    pub fn send_snapshot(&mut self, peer: PeerId, snapshot: serde_json::Value) -> (r: Result<
        (),
        P2PError,
    >)
        requires
            old(self).wf(),
        ensures
            final(self).wf(),
            !old(self)@.is_host ==> final(self)@ == old(self)@ && send_failed(r, "Only host can send snapshots"@),
            old(self)@.is_host ==> r is Ok && final(self)@ == (TransportView {
                outbox: old(self)@.outbox.push(
                    OutgoingView::SendTo(
                        peer,
                        control_view(
                            MessageKindView::SnapshotResponse {
                                snapshot,
                                as_of_sequence: (old(self)@.next_sequence - 1) as u64,
                            },
                        ),
                    ),
                ),
                ..old(self)@
            }),
    {
        if !self.is_host {
            return Err(P2PError::SendFailed(String::from_str("Only host can send snapshots")));
        }
        let ghost out0 = self.outbox@;
        let msg = P2PMessage::snapshot_response(snapshot, self.next_sequence - 1);
        let ghost mv = msg@;
        self.outbox.push(Outgoing::SendTo(peer, msg));
        proof {
            assert(outgoing_views(self.outbox@) =~= outgoing_views(out0).push(
                OutgoingView::SendTo(peer, mv),
            ));
        }
        Ok(())
    }

    /// Queues a request for the full state to every peer (guest only).
    pub fn request_snapshot(&mut self) -> (r: Result<(), P2PError>)
        requires
            old(self).wf(),
        ensures
            final(self).wf(),
            old(self)@.is_host ==> final(self)@ == old(self)@ && send_failed(r, "Host doesn't request snapshots"@),
            !old(self)@.is_host ==> r is Ok && final(self)@ == (TransportView {
                outbox: old(self)@.outbox.push(
                    OutgoingView::Broadcast(control_view(MessageKindView::SnapshotRequest)),
                ),
                ..old(self)@
            }),
    {
        if self.is_host {
            return Err(P2PError::SendFailed(String::from_str("Host doesn't request snapshots")));
        }
        let ghost out0 = self.outbox@;
        self.outbox.push(Outgoing::Broadcast(P2PMessage::snapshot_request()));
        proof {
            assert(outgoing_views(self.outbox@) =~= outgoing_views(out0).push(
                OutgoingView::Broadcast(control_view(MessageKindView::SnapshotRequest)),
            ));
        }
        Ok(())
    }

    /// The number the next application message gets.
    pub fn next_sequence(&self) -> (n: u64)
        ensures
            n == self@.next_sequence,
    {
        self.next_sequence
    }

    /// Takes the events for the session, oldest first.
    pub fn drain_events(&mut self) -> (v: Vec<TransportEvent>)
        requires
            old(self).wf(),
        ensures
            final(self).wf(),
            v@ == old(self)@.events,
            final(self)@ == (TransportView { events: Seq::empty(), ..old(self)@ }),
    {
        let mut taken: Vec<TransportEvent> = Vec::new();
        std::mem::swap(&mut taken, &mut self.pending_events);
        taken
    }

    /// Takes the messages queued for sending, oldest first.
    pub fn drain_outgoing(&mut self) -> (v: Vec<Outgoing>)
        requires
            old(self).wf(),
        ensures
            final(self).wf(),
            outgoing_views(v@) == old(self)@.outbox,
            final(self)@ == (TransportView { outbox: Seq::empty(), ..old(self)@ }),
    {
        let mut taken: Vec<Outgoing> = Vec::new();
        std::mem::swap(&mut taken, &mut self.outbox);
        proof {
            assert(outgoing_views(self.outbox@) =~= Seq::<OutgoingView>::empty());
        }
        taken
    }

    /// Delivers an application message numbered `sequence`, in order.
    fn handle_application_message(
        &mut self,
        sequence: u64,
        payload: serde_json::Value,
        delivered: &mut Vec<serde_json::Value>,
    )
        requires
            old(self).wf(),
        ensures
            final(self).wf(),
            final(self)@ == old(self)@.receive_app(sequence, payload).0,
            final(delivered)@ == old(delivered)@ + old(self)@.receive_app(sequence, payload).1,
    {
        let ghost p = payload;
        if sequence == 0 {
            delivered.push(payload);
            return;
        }
        let h = self.highest_received;
        if sequence > h && sequence - h == 1 {
            let ghost d0 = delivered@;
            delivered.push(payload);
            self.highest_received = sequence;
            let ghost target = drain_ready(sequence, self.pending_messages@);
            loop
                invariant
                    self@.wf(),
                    self.next_sequence == old(self)@.next_sequence,
                    self.message_cache@ == old(self)@.cache,
                    self.cache_size == old(self)@.cache_size,
                    self.is_host == old(self)@.is_host,
                    self.pending_events@ == old(self)@.events,
                    outgoing_views(self.outbox@) == old(self)@.outbox,
                    drain_ready(self.highest_received, self.pending_messages@).0 == target.0,
                    drain_ready(self.highest_received, self.pending_messages@).1 == target.1,
                    delivered@ + drain_ready(self.highest_received, self.pending_messages@).2 == d0
                        + seq![p] + target.2,
                ensures
                    self@.wf(),
                    self@ == (TransportView {
                        highest_received: target.0,
                        pending: target.1,
                        ..old(self)@
                    }),
                    delivered@ == d0 + seq![p] + target.2,
                decreases u64::MAX - self.highest_received,
            {
                let hh = self.highest_received;
                if hh == u64::MAX {
                    proof {
                        assert(delivered@ + Seq::<serde_json::Value>::empty() =~= delivered@);
                    }
                    break;
                }
                let next = hh + 1;
                let ghost pend0 = self.pending_messages@;
                match self.pending_messages.remove(&next) {
                    Some(m) => {
                        proof {
                            assert(pend0.contains_key(next));
                            assert(self.pending_messages@ =~= pend0.remove(next));
                        }
                        match m.kind {
                            MessageKind::Application { payload: q } => {
                                let ghost dd = delivered@;
                                delivered.push(q);
                                self.highest_received = m.sequence;
                                proof {
                                    assert(dd.push(q) + drain_ready(next, pend0.remove(next)).2 =~= dd + (
                                    seq![q] + drain_ready(next, pend0.remove(next)).2));
                                }
                            },
                            _ => {
                                proof {
                                    assert(false);
                                }
                            },
                        }
                    },
                    None => {
                        proof {
                            assert(self.pending_messages@ =~= pend0);
                            assert(delivered@ + Seq::<serde_json::Value>::empty() =~= delivered@);
                        }
                        break;
                    },
                }
            }
            proof {
                assert(d0 + seq![p] + target.2 =~= d0 + (seq![p] + target.2));
            }
        } else if sequence > h {
            let ghost pend0 = self.pending_messages@;
            self.pending_messages.insert(
                sequence,
                P2PMessage { sequence, kind: MessageKind::Application { payload } },
            );
            self.request_resend(h + 1, sequence - 1);
            proof {
                assert(delivered@ =~= delivered@ + Seq::<serde_json::Value>::empty());
            }
        } else {
            proof {
                assert(delivered@ =~= delivered@ + Seq::<serde_json::Value>::empty());
            }
        }
    }

    /// Queues a request, to every peer, for the messages `from` to `to`.
    fn request_resend(&mut self, from: u64, to: u64)
        ensures
            final(self)@ == (TransportView {
                outbox: old(self)@.outbox.push(
                    OutgoingView::Broadcast(control_view(MessageKindView::ResendRequest { from, to })),
                ),
                ..old(self)@
            }),
    {
        let ghost out0 = self.outbox@;
        self.outbox.push(Outgoing::Broadcast(P2PMessage::resend_request(from, to)));
        proof {
            assert(outgoing_views(self.outbox@) =~= outgoing_views(out0).push(
                OutgoingView::Broadcast(control_view(MessageKindView::ResendRequest { from, to })),
            ));
        }
    }

    /// Answers a request from `peer` for the messages `from` to `to`.
    fn handle_resend_request(&mut self, from: u64, to: u64, peer: PeerId)
        requires
            old(self).wf(),
        ensures
            final(self).wf(),
            final(self)@ == old(self)@.answer_resend(from, to, peer),
    {
        if !self.is_host {
            return;
        }
        let ghost pred = |m: P2PMessage| from <= m.sequence && m.sequence <= to;
        let mut messages: Vec<P2PMessage> = Vec::new();
        let mut i: usize = 0;
        while i < self.message_cache.len()
            invariant
                self@.wf(),
                i <= self@.cache.len(),
                pred == (|m: P2PMessage| from <= m.sequence && m.sequence <= to),
                messages@ == self@.cache.take(i as int).filter(pred),
            decreases self@.cache.len() - i,
        {
            let m = &self.message_cache[i];
            proof {
                assert(self@.cache.take(i + 1) =~= self@.cache.take(i as int).push(self@.cache[i as int]));
                self@.cache.take(i as int).lemma_filter_push(self@.cache[i as int], pred);
            }
            if from <= m.sequence && m.sequence <= to {
                match &m.kind {
                    MessageKind::Application { payload } => {
                        messages.push(
                            P2PMessage {
                                sequence: m.sequence,
                                kind: MessageKind::Application { payload: clone_json(payload) },
                            },
                        );
                    },
                    _ => {
                        proof {
                            assert(self@.cache[i as int].kind is Application);
                        }
                    },
                }
            }
            i += 1;
        }
        proof {
            assert(self@.cache.take(self@.cache.len() as int) =~= self@.cache);
        }
        if messages.len() > 0 {
            let ghost out0 = self.outbox@;
            let ghost ms = messages@;
            self.outbox.push(
                Outgoing::SendTo(
                    peer,
                    P2PMessage { sequence: 0, kind: MessageKind::ResendResponse { messages } },
                ),
            );
            proof {
                assert(outgoing_views(self.outbox@) =~= outgoing_views(out0).push(
                    OutgoingView::SendTo(
                        peer,
                        control_view(MessageKindView::ResendResponse { messages: ms }),
                    ),
                ));
            }
        }
    }

    /// Delivers the application messages sent again, in order.
    fn handle_resend_response(&mut self, messages: &Vec<P2PMessage>, delivered: &mut Vec<serde_json::Value>)
        requires
            old(self).wf(),
        ensures
            final(self).wf(),
            final(self)@ == old(self)@.receive_all(messages@).0,
            final(delivered)@ == old(delivered)@ + old(self)@.receive_all(messages@).1,
    {
        let mut i: usize = 0;
        while i < messages.len()
            invariant
                self.wf(),
                i <= messages@.len(),
                self@ == old(self)@.receive_all(messages@.take(i as int)).0,
                delivered@ == old(delivered)@ + old(self)@.receive_all(messages@.take(i as int)).1,
            decreases messages@.len() - i,
        {
            let m = &messages[i];
            proof {
                assert(messages@.take(i + 1).drop_last() =~= messages@.take(i as int));
            }
            match &m.kind {
                MessageKind::Application { payload } => {
                    let ghost d0 = delivered@;
                    let ghost s0 = self@;
                    self.handle_application_message(m.sequence, clone_json(payload), delivered);
                    proof {
                        assert(delivered@ =~= old(delivered)@ + (old(self)@.receive_all(
                            messages@.take(i as int),
                        ).1 + s0.receive_app(m.sequence, *payload).1));
                    }
                },
                _ => {},
            }
            i += 1;
        }
        proof {
            assert(messages@.take(messages@.len() as int) =~= messages@);
        }
    }

    /// Handles what arrived from the network, in order, and answers the
    /// application payloads delivered.
    pub fn poll(&mut self, incoming: Vec<Incoming>) -> (delivered: Vec<serde_json::Value>)
        requires
            old(self).wf(),
        ensures
            final(self).wf(),
            final(self)@ == old(self)@.on_all(incoming@).0,
            delivered@ == old(self)@.on_all(incoming@).1,
    {
        let mut delivered: Vec<serde_json::Value> = Vec::new();
        let mut i: usize = 0;
        while i < incoming.len()
            invariant
                self.wf(),
                i <= incoming@.len(),
                self@ == old(self)@.on_all(incoming@.take(i as int)).0,
                delivered@ == old(self)@.on_all(incoming@.take(i as int)).1,
            decreases incoming@.len() - i,
        {
            proof {
                assert(incoming@.take(i + 1).drop_last() =~= incoming@.take(i as int));
            }
            let ghost s0 = self@;
            let ghost d0 = delivered@;
            match &incoming[i] {
                Incoming::PeerConnected(p) => {
                    self.pending_events.push(TransportEvent::PeerConnected(*p));
                    proof {
                        assert(delivered@ =~= d0 + Seq::<serde_json::Value>::empty());
                    }
                },
                Incoming::Message { from, message } => {
                    match &message.kind {
                        MessageKind::Application { payload } => {
                            self.handle_application_message(
                                message.sequence,
                                clone_json(payload),
                                &mut delivered,
                            );
                        },
                        MessageKind::SnapshotRequest => {
                            self.pending_events.push(TransportEvent::SnapshotRequested { from: *from });
                            proof {
                                assert(delivered@ =~= d0 + Seq::<serde_json::Value>::empty());
                            }
                        },
                        MessageKind::SnapshotResponse { snapshot, as_of_sequence } => {
                            self.pending_events.push(
                                TransportEvent::SnapshotReceived {
                                    snapshot: clone_json(snapshot),
                                    as_of_sequence: *as_of_sequence,
                                },
                            );
                            proof {
                                assert(delivered@ =~= d0 + Seq::<serde_json::Value>::empty());
                            }
                        },
                        MessageKind::ResendRequest { from: a, to: b } => {
                            self.handle_resend_request(*a, *b, *from);
                            proof {
                                assert(delivered@ =~= d0 + Seq::<serde_json::Value>::empty());
                            }
                        },
                        MessageKind::ResendResponse { messages } => {
                            self.handle_resend_response(messages, &mut delivered);
                        },
                    }
                },
            }
            i += 1;
        }
        proof {
            assert(incoming@.take(incoming@.len() as int) =~= incoming@);
        }
        delivered
    }
}

} // verus!
