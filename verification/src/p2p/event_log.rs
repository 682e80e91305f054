//! A bounded log of the last events, for late joiners, replay and gap detection.

use vstd::prelude::*;
use std::collections::VecDeque;
use crate::p2p::event::{LobbyEvent, LobbyEventView};

verus! {

broadcast use vstd::seq_lib::group_filter_ensures;

/// What an event log is: how many events it keeps, the events (oldest
/// first), the next sequence number to assign, and the highest sequence
/// number seen.
pub struct EventLogView {
    pub max_size: usize,
    pub events: Seq<LobbyEventView>,
    pub next_sequence: u64,
    pub highest_seen: u64,
}

/// The integers from `a` up to, not including, `b`.
pub open spec fn range(a: int, b: int) -> Seq<int> {
    Seq::new(if a <= b { (b - a) as nat } else { 0 }, |i: int| a + i)
}

impl EventLogView {
    /// Some kept event has sequence number `s`.
    pub open spec fn has(self, s: int) -> bool {
        exists|i: int| 0 <= i < self.events.len() && self.events[i].sequence == s
    }

    /// The log after `e` is added: `e` is kept last, the oldest event is
    /// dropped when the log holds more than it may, and the highest sequence
    /// number seen rises to `e`'s when it is higher.
    pub open spec fn add(self, e: LobbyEventView) -> EventLogView {
        let events = self.events.push(e);
        EventLogView {
            events: if events.len() > self.max_size {
                events.drop_first()
            } else {
                events
            },
            highest_seen: if e.sequence > self.highest_seen {
                e.sequence
            } else {
                self.highest_seen
            },
            ..self
        }
    }

    /// The log after each of `es` is added, in order.
    pub open spec fn add_all(self, es: Seq<LobbyEventView>) -> EventLogView
        decreases es.len(),
    {
        if es.len() == 0 {
            self
        } else {
            self.add_all(es.drop_last()).add(es.last())
        }
    }

    /// The index of the first kept event numbered `s` (meaningful when
    /// there is one).
    pub open spec fn first_index(self, s: int) -> int {
        choose|i: int|
            0 <= i < self.events.len() && self.events[i].sequence == s && forall|j: int|
                0 <= j < i ==> self.events[j].sequence != s
    }

    /// Adding events keeps the size bound and the next number to assign.
    pub proof fn lemma_add_all_keeps(self, es: Seq<LobbyEventView>)
        ensures
            self.add_all(es).max_size == self.max_size,
            self.add_all(es).next_sequence == self.next_sequence,
        decreases es.len(),
    {
        if es.len() > 0 {
            self.lemma_add_all_keeps(es.drop_last());
        }
    }

    /// The sequence numbers from the oldest kept event up to the highest
    /// seen that no kept event has, in increasing order.
    pub open spec fn gaps(self) -> Seq<int> {
        if self.events.len() == 0 {
            Seq::empty()
        } else {
            range(self.events[0].sequence as int, self.highest_seen + 1).filter(
                |s: int| !self.has(s),
            )
        }
    }

    /// The kept events with a sequence number above `s`, in order.
    pub open spec fn since(self, s: u64) -> Seq<LobbyEventView> {
        self.events.filter(|e: LobbyEventView| e.sequence > s)
    }

    /// The last `n` kept events (all of them when there are fewer), in order.
    pub open spec fn last(self, n: nat) -> Seq<LobbyEventView> {
        if n >= self.events.len() {
            self.events
        } else {
            self.events.skip(self.events.len() - n)
        }
    }
}

/// The log never keeps more events than its size, the highest sequence
/// number seen never goes down, and it is at least the number of every kept
/// event.
pub proof fn lemma_log_laws(l: EventLogView, e: LobbyEventView)
    requires
        l.events.len() <= l.max_size,
        forall|i: int| 0 <= i < l.events.len() ==> (#[trigger] l.events[i]).sequence <= l.highest_seen,
    ensures
        l.add(e).events.len() <= l.max_size,
        l.add(e).highest_seen >= l.highest_seen,
        l.add(e).highest_seen >= e.sequence,
        forall|i: int| 0 <= i < l.add(e).events.len() ==> (#[trigger] l.add(e).events[i]).sequence <= l.add(e).highest_seen,
{
    let pushed = l.events.push(e);
    assert forall|i: int| 0 <= i < l.add(e).events.len() implies (#[trigger] l.add(e).events[i]).sequence <= l.add(e).highest_seen by {
        if pushed.len() > l.max_size {
            assert(l.add(e).events[i] == pushed[i + 1]);
        } else {
            assert(l.add(e).events[i] == pushed[i]);
        }
    }
}

/// A bounded event log that keeps the last `max_size` events.
///
/// It serves late joiners (recent events), replay for debugging, and the
/// detection of missing events.
#[derive(Debug)]
pub struct EventLog {
    max_size: usize,
    events: VecDeque<LobbyEvent>,
    next_sequence: u64,
    highest_seen: u64,
}

impl View for EventLog {
    type V = EventLogView;

    closed spec fn view(&self) -> EventLogView {
        EventLogView {
            max_size: self.max_size,
            events: self.events@.map_values(|e: LobbyEvent| e@),
            next_sequence: self.next_sequence,
            highest_seen: self.highest_seen,
        }
    }
}

impl Clone for EventLog {
    fn clone(&self) -> (l: Self)
        ensures
            l@ == self@,
    {
        let mut events: VecDeque<LobbyEvent> = VecDeque::new();
        let mut i: usize = 0;
        while i < self.events.len()
            invariant
                i <= self.events@.len(),
                events@.map_values(|e: LobbyEvent| e@) == self.events@.map_values(
                    |e: LobbyEvent| e@,
                ).take(i as int),
            decreases self.events@.len() - i,
        {
            let ghost prev = events@.map_values(|e: LobbyEvent| e@);
            let c = self.events[i].clone();
            proof {
                assert(c@ == self.events@[i as int]@);
            }
            events.push_back(c);
            proof {
                assert(events@.map_values(|e: LobbyEvent| e@) =~= prev.push(c@));
                assert(self.events@.map_values(|e: LobbyEvent| e@).take(i + 1) =~= self.events@.map_values(
                    |e: LobbyEvent| e@,
                ).take(i as int).push(c@));
            }
            i += 1;
        }
        proof {
            assert(events@.map_values(|e: LobbyEvent| e@) =~= self.events@.map_values(
                |e: LobbyEvent| e@,
            ));
        }
        EventLog {
            max_size: self.max_size,
            events,
            next_sequence: self.next_sequence,
            highest_seen: self.highest_seen,
        }
    }
}

impl Default for EventLog {
    fn default() -> (l: Self)
        ensures
            l@ == (EventLogView {
                max_size: 100,
                events: Seq::empty(),
                next_sequence: 1,
                highest_seen: 0,
            }),
    {
        Self::new()
    }
}

impl EventLog {
    /// An empty log that keeps 100 events.
    pub fn new() -> (l: Self)
        ensures
            l@ == (EventLogView {
                max_size: 100,
                events: Seq::empty(),
                next_sequence: 1,
                highest_seen: 0,
            }),
    {
        Self::with_capacity(100)
    }

    /// An empty log that keeps `max_size` events; sequence numbers start at
    /// 1 (0 stands for "unassigned").
    pub fn with_capacity(max_size: usize) -> (l: Self)
        ensures
            l@ == (EventLogView {
                max_size,
                events: Seq::empty(),
                next_sequence: 1,
                highest_seen: 0,
            }),
    {
        let l = EventLog { max_size, events: VecDeque::new(), next_sequence: 1, highest_seen: 0 };
        assert(l@.events =~= Seq::<LobbyEventView>::empty());
        l
    }

    /// Adds an event with the next sequence number (host only) and answers
    /// that number.
    pub fn append(&mut self, event: LobbyEvent) -> (s: u64)
        requires
            old(self)@.next_sequence < u64::MAX,
        ensures
            s == old(self)@.next_sequence,
            final(self)@ == (EventLogView { next_sequence: (s + 1) as u64, ..old(self)@ }).add(
                LobbyEventView { sequence: s, ..event@ },
            ),
    {
        let mut event = event;
        event.sequence = self.next_sequence;
        self.next_sequence = self.next_sequence + 1;
        self.add_event(event);
        self.next_sequence - 1
    }

    /// Adds an event that already has a sequence number (guests receiving
    /// from the host).
    pub fn add_event(&mut self, event: LobbyEvent)
        ensures
            final(self)@ == old(self)@.add(event@),
    {
        if event.sequence > self.highest_seen {
            self.highest_seen = event.sequence;
        }
        let ghost ev = event@;
        self.events.push_back(event);
        proof {
            assert(self.events@.map_values(|e: LobbyEvent| e@) =~= old(self)@.events.push(ev));
        }
        if self.events.len() > self.max_size {
            self.events.pop_front();
            proof {
                assert(self.events@.map_values(|e: LobbyEvent| e@) =~= old(self)@.events.push(
                    ev,
                ).drop_first());
            }
        }
    }

    /// The position of the first kept event with sequence number `sequence`.
    fn position(&self, sequence: u64) -> (r: Option<usize>)
        ensures
            match r {
                Some(i) => i < self@.events.len() && self@.events[i as int].sequence == sequence
                    && forall|j: int| 0 <= j < i ==> self@.events[j].sequence != sequence,
                None => !self@.has(sequence as int),
            },
    {
        let mut i: usize = 0;
        while i < self.events.len()
            invariant
                i <= self@.events.len(),
                self@.events.len() == self.events@.len(),
                forall|j: int| 0 <= j < i ==> self@.events[j].sequence != sequence,
            decreases self.events@.len() - i,
        {
            if self.events[i].sequence == sequence {
                return Some(i);
            }
            i += 1;
        }
        None
    }

    /// The first kept event with this sequence number, if any.
    pub fn get(&self, sequence: u64) -> (r: Option<&LobbyEvent>)
        ensures
            match r {
                Some(e) => exists|i: int|
                    0 <= i < self@.events.len() && self@.events[i] == e@ && e@.sequence == sequence
                        && forall|j: int| 0 <= j < i ==> self@.events[j].sequence != sequence,
                None => !self@.has(sequence as int),
            },
    {
        match self.position(sequence) {
            Some(i) => Some(&self.events[i]),
            None => None,
        }
    }

    /// Copies of the kept events with a sequence number above `sequence`,
    /// in order (for late joiners).
    pub fn get_since(&self, sequence: u64) -> (v: Vec<LobbyEvent>)
        ensures
            v@.map_values(|e: LobbyEvent| e@) == self@.since(sequence),
    {
        let ghost pred = |e: LobbyEventView| e.sequence > sequence;
        let mut v: Vec<LobbyEvent> = Vec::new();
        let mut i: usize = 0;
        while i < self.events.len()
            invariant
                i <= self@.events.len(),
                self@.events.len() == self.events@.len(),
                pred == (|e: LobbyEventView| e.sequence > sequence),
                v@.map_values(|e: LobbyEvent| e@) == self@.events.take(i as int).filter(pred),
            decreases self.events@.len() - i,
        {
            let ghost before = v@.map_values(|e: LobbyEvent| e@);
            proof {
                assert(self@.events.take(i + 1) =~= self@.events.take(i as int).push(
                    self@.events[i as int],
                ));
                self@.events.take(i as int).lemma_filter_push(self@.events[i as int], pred);
            }
            if self.events[i].sequence > sequence {
                v.push(self.events[i].clone());
                proof {
                    assert(v@.map_values(|e: LobbyEvent| e@) =~= before.push(self@.events[i as int]));
                }
            }
            i += 1;
        }
        proof {
            assert(self@.events.take(self@.events.len() as int) =~= self@.events);
        }
        v
    }

    /// Copies of the last `n` kept events, in order.
    pub fn get_last(&self, n: usize) -> (v: Vec<LobbyEvent>)
        ensures
            v@.map_values(|e: LobbyEvent| e@) == self@.last(n as nat),
    {
        let len = self.events.len();
        let start = if n >= len {
            0
        } else {
            len - n
        };
        let mut v: Vec<LobbyEvent> = Vec::new();
        let mut i: usize = start;
        while i < len
            invariant
                start <= i <= len,
                len == self@.events.len(),
                len == self.events@.len(),
                v@.map_values(|e: LobbyEvent| e@) == self@.events.subrange(start as int, i as int),
            decreases len - i,
        {
            let ghost prev = v@.map_values(|e: LobbyEvent| e@);
            let c = self.events[i].clone();
            proof {
                assert(c@ == self@.events[i as int]);
            }
            v.push(c);
            proof {
                assert(v@.map_values(|e: LobbyEvent| e@) =~= prev.push(c@));
                assert(self@.events.subrange(start as int, i + 1) =~= self@.events.subrange(
                    start as int,
                    i as int,
                ).push(c@));
            }
            i += 1;
        }
        proof {
            assert(self@.events.subrange(start as int, len as int) =~= self@.last(n as nat));
        }
        v
    }

    /// Copies of all kept events, oldest first.
    pub fn all_events(&self) -> (v: Vec<LobbyEvent>)
        ensures
            v@.map_values(|e: LobbyEvent| e@) == self@.events,
    {
        let mut v: Vec<LobbyEvent> = Vec::new();
        let mut i: usize = 0;
        while i < self.events.len()
            invariant
                i <= self@.events.len(),
                self@.events.len() == self.events@.len(),
                v@.map_values(|e: LobbyEvent| e@) == self@.events.take(i as int),
            decreases self.events@.len() - i,
        {
            let ghost prev = v@.map_values(|e: LobbyEvent| e@);
            let c = self.events[i].clone();
            proof {
                assert(c@ == self@.events[i as int]);
            }
            v.push(c);
            proof {
                assert(v@.map_values(|e: LobbyEvent| e@) =~= prev.push(c@));
                assert(self@.events.take(i + 1) =~= self@.events.take(i as int).push(c@));
            }
            i += 1;
        }
        proof {
            assert(self@.events.take(self@.events.len() as int) =~= self@.events);
        }
        v
    }

    /// The highest sequence number seen.
    pub fn highest_sequence(&self) -> (s: u64)
        ensures
            s == self@.highest_seen,
    {
        self.highest_seen
    }

    /// The next sequence number to assign (host only).
    pub fn next_sequence(&self) -> (s: u64)
        ensures
            s == self@.next_sequence,
    {
        self.next_sequence
    }

    /// The sequence numbers missing between the oldest kept event and the
    /// highest seen, in increasing order.
    pub fn detect_gaps(&self) -> (v: Vec<u64>)
        ensures
            v@.map_values(|s: u64| s as int) == self@.gaps(),
    {
        if self.events.len() == 0 {
            let v: Vec<u64> = Vec::new();
            proof {
                assert(v@.map_values(|s: u64| s as int) =~= Seq::<int>::empty());
            }
            return v;
        }
        let oldest = self.events[0].sequence;
        let ghost pred = |s: int| !self@.has(s);
        let ghost all = range(oldest as int, self.highest_seen + 1);
        let mut missing: Vec<u64> = Vec::new();
        if oldest > self.highest_seen {
            proof {
                assert(all =~= Seq::<int>::empty());
                assert(missing@.map_values(|s: u64| s as int) =~= all.filter(pred));
            }
            return missing;
        }
        let count: u128 = (self.highest_seen - oldest) as u128 + 1;
        let mut k: u128 = 0;
        while k < count
            invariant
                oldest <= self.highest_seen,
                count == self.highest_seen - oldest + 1,
                k <= count,
                oldest == self@.events[0].sequence,
                all == range(oldest as int, self.highest_seen + 1),
                pred == (|s: int| !self@.has(s)),
                missing@.map_values(|s: u64| s as int) == all.take(k as int).filter(pred),
            decreases count - k,
        {
            let s: u64 = oldest + k as u64;
            let ghost before = missing@.map_values(|s: u64| s as int);
            proof {
                assert(all[k as int] == s);
                assert(all.take(k + 1) =~= all.take(k as int).push(s as int));
                all.take(k as int).lemma_filter_push(s as int, pred);
            }
            if self.position(s).is_none() {
                missing.push(s);
                proof {
                    assert(missing@.map_values(|s: u64| s as int) =~= before.push(s as int));
                }
            }
            k += 1;
        }
        proof {
            assert(all.take(count as int) =~= all);
        }
        missing
    }

    /// Forgets all events and the highest sequence number seen.
    pub fn clear(&mut self)
        ensures
            final(self)@ == (EventLogView { events: Seq::empty(), highest_seen: 0, ..old(self)@ }),
    {
        self.events.clear();
        self.highest_seen = 0;
        proof {
            assert(self@.events =~= Seq::<LobbyEventView>::empty());
        }
    }

    /// How many events are kept.
    pub fn len(&self) -> (n: usize)
        ensures
            n == self@.events.len(),
    {
        self.events.len()
    }

    pub fn is_empty(&self) -> (b: bool)
        ensures
            b == (self@.events.len() == 0),
    {
        self.events.len() == 0
    }
}

} // verus!
