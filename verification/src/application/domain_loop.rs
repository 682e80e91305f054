//! The domain loop: commands are queued, processed in batches, and the
//! events they give are kept for the caller.

use vstd::prelude::*;
use crate::application::commands::{DomainCommand, command_views};
use crate::application::events::DomainEvent;
use crate::application::event_loop::{Answer, DomainEventLoop, Fresh, LoopView, fits};
use crate::application::command_queue::{CommandQueue, CommandQueueView, QueueError};

verus! {

/// The state and answers after the commands `cmds`, taken in order, with
/// `fs` as their fresh values.
pub open spec fn run_steps(s: LoopView, cmds: Seq<DomainCommand>, fs: Seq<Fresh>) -> (LoopView, Seq<Answer>)
    decreases cmds.len(),
{
    if cmds.len() == 0 || fs.len() == 0 {
        (s, Seq::empty())
    } else {
        let (s1, a1) = s.step(cmds[0], fs[0]);
        let (s2, rest) = run_steps(s1, cmds.drop_first(), fs.drop_first());
        (s2, seq![a1] + rest)
    }
}

/// A command's effect depends only on its view: commands with equal views
/// give the same state and answer.
pub proof fn lemma_step_by_view(s: LoopView, c1: DomainCommand, c2: DomainCommand, f: Fresh)
    requires
        c1@ == c2@,
    ensures
        s.step(c1, f) == s.step(c2, f),
{
}

/// A refused command changes nothing: when the answer is a failure, the
/// lobbies and runs are as they were.
pub proof fn lemma_refusal_changes_nothing(s: LoopView, c: DomainCommand, f: Fresh)
    ensures
        s.step(c, f).1 matches Answer::Exact(crate::application::events::DomainEventView::CommandFailed { .. })
            ==> s.step(c, f).0 == s,
{
}

/// Commands with equal views, run in order, give the same states and answers.
pub proof fn lemma_run_steps_by_view(s: LoopView, c1: Seq<DomainCommand>, c2: Seq<DomainCommand>, fs: Seq<Fresh>)
    requires
        command_views(c1) == command_views(c2),
    ensures
        run_steps(s, c1, fs) == run_steps(s, c2, fs),
    decreases c1.len(),
{
    assert(c1.len() == command_views(c1).len());
    if c1.len() > 0 && fs.len() > 0 {
        assert(c1[0]@ == command_views(c1)[0]);
        assert(c2[0]@ == command_views(c2)[0]);
        lemma_step_by_view(s, c1[0], c2[0], fs[0]);
        assert(command_views(c1.drop_first()) =~= command_views(c1).drop_first());
        assert(command_views(c2.drop_first()) =~= command_views(c2).drop_first());
        lemma_run_steps_by_view(s.step(c1[0], fs[0]).0, c1.drop_first(), c2.drop_first(), fs.drop_first());
    }
}

/// Steps one command further than `run_steps` on a prefix.
proof fn lemma_run_steps_push(s: LoopView, cmds: Seq<DomainCommand>, fs: Seq<Fresh>, c: DomainCommand, f: Fresh)
    requires
        cmds.len() == fs.len(),
    ensures
        run_steps(s, cmds.push(c), fs.push(f)) == ({
            let (s1, a1) = run_steps(s, cmds, fs);
            let (s2, a2) = s1.step(c, f);
            (s2, a1.push(a2))
        }),
    decreases cmds.len(),
{
    if cmds.len() == 0 {
        assert(cmds.push(c).drop_first() =~= Seq::<DomainCommand>::empty());
        assert(fs.push(f).drop_first() =~= Seq::<Fresh>::empty());
        let (s1, a1) = s.step(c, f);
        assert(cmds.push(c)[0] == c);
        assert(fs.push(f)[0] == f);
        assert(run_steps(s1, Seq::<DomainCommand>::empty(), Seq::<Fresh>::empty()) == (s1, Seq::<Answer>::empty()));
        assert(seq![a1] + Seq::<Answer>::empty() =~= Seq::<Answer>::empty().push(a1));
        assert(run_steps(s, cmds, fs) == (s, Seq::<Answer>::empty()));
    } else {
        assert(cmds.push(c)[0] == cmds[0]);
        assert(fs.push(f)[0] == fs[0]);
        assert(cmds.push(c).drop_first() =~= cmds.drop_first().push(c));
        assert(fs.push(f).drop_first() =~= fs.drop_first().push(f));
        lemma_run_steps_push(s.step(cmds[0], fs[0]).0, cmds.drop_first(), fs.drop_first(), c, f);
        let (s1, a1) = s.step(cmds[0], fs[0]);
        let (s2, rest) = run_steps(s1, cmds.drop_first(), fs.drop_first());
        let (s3, a3) = s2.step(c, f);
        assert(seq![a1] + rest.push(a3) =~= (seq![a1] + rest).push(a3));
    }
}

/// What a domain loop is: the event loop's state, the commands waiting, the
/// events kept for the caller, and how many commands one poll handles.
pub struct DomainLoopView {
    pub state: LoopView,
    pub inbound: CommandQueueView,
    pub outbound: Seq<crate::application::events::DomainEventView>,
    pub batch_size: usize,
}

impl DomainLoopView {
    /// `next` and `n` are what a poll can give: up to a batch of the oldest
    /// commands are taken, with some fresh values, and an event fitting each
    /// answer is kept.
    pub open spec fn polled(self, next: DomainLoopView, n: usize) -> bool {
        &&& n == vstd::math::min(self.batch_size as int, self.inbound.items.len() as int)
        &&& next.inbound == (CommandQueueView { items: self.inbound.items.skip(n as int), ..self.inbound })
        &&& next.batch_size == self.batch_size
        &&& next.outbound.len() == self.outbound.len() + n
        &&& next.outbound.take(self.outbound.len() as int) == self.outbound
        &&& exists|fs: Seq<Fresh>|
            {
                let (s, answers) = #[trigger] run_steps(self.state, self.inbound.items.take(n as int), fs);
                &&& fs.len() == n
                &&& next.state == s
                &&& answers.len() == n
                &&& forall|i: int|
                    0 <= i < n ==> fits(next.outbound[self.outbound.len() + i], #[trigger] answers[i])
            }
    }
}

/// The domain event loop, fed through a bounded queue and processed in
/// batches.
pub struct DomainLoop {
    event_loop: DomainEventLoop,
    inbound: CommandQueue,
    outbound: Vec<DomainEvent>,
    batch_size: usize,
}

impl View for DomainLoop {
    type V = DomainLoopView;

    closed spec fn view(&self) -> DomainLoopView {
        DomainLoopView {
            state: self.event_loop@,
            inbound: self.inbound@,
            outbound: self.outbound@.map_values(|e: DomainEvent| e@),
            batch_size: self.batch_size,
        }
    }
}

impl DomainLoop {
    /// A loop with no lobbies, an empty queue that holds `max_queue_size`
    /// commands, and `batch_size` commands per poll.
    pub fn new(batch_size: usize, max_queue_size: usize) -> (l: Self)
        ensures
            l@.state.lobbies == Map::<crate::ident::Uuid, crate::domain::lobby::LobbyView>::empty(),
            l@.state.runs == Map::<crate::ident::Uuid, crate::domain::activity_run::ActivityRunView>::empty(),
            l@.inbound.items == Seq::<DomainCommand>::empty(),
            l@.inbound.max_size == max_queue_size,
            l@.outbound == Seq::<crate::application::events::DomainEventView>::empty(),
            l@.batch_size == batch_size,
    {
        let l = DomainLoop {
            event_loop: DomainEventLoop::new(),
            inbound: CommandQueue::new(max_queue_size),
            outbound: Vec::new(),
            batch_size,
        };
        assert(l@.outbound =~= Seq::<crate::application::events::DomainEventView>::empty());
        l
    }

    /// Queues a command (without blocking); refused when the queue is full.
    pub fn submit(&mut self, cmd: DomainCommand) -> (r: Result<(), QueueError>)
        ensures
            old(self)@.inbound.items.len() >= old(self)@.inbound.max_size ==> r == Err::<
                (),
                QueueError,
            >(QueueError::Full { max: old(self)@.inbound.max_size }) && final(self)@ == old(self)@,
            old(self)@.inbound.items.len() < old(self)@.inbound.max_size ==> r == Ok::<
                (),
                QueueError,
            >(()) && final(self)@ == (DomainLoopView {
                inbound: CommandQueueView {
                    items: old(self)@.inbound.items.push(cmd),
                    ..old(self)@.inbound
                },
                ..old(self)@
            }),
    {
        self.inbound.push(cmd)
    }

    /// Handles up to `batch_size` queued commands, oldest first, keeping an
    /// event for each; answers how many it handled.
    pub fn poll(&mut self) -> (processed: usize)
        ensures
            old(self)@.polled(final(self)@, processed),
            processed == vstd::math::min(
                old(self)@.batch_size as int,
                old(self)@.inbound.items.len() as int,
            ),
            final(self)@.inbound == (CommandQueueView {
                items: old(self)@.inbound.items.skip(processed as int),
                ..old(self)@.inbound
            }),
            final(self)@.batch_size == old(self)@.batch_size,
            final(self)@.outbound.len() == old(self)@.outbound.len() + processed,
            final(self)@.outbound.take(old(self)@.outbound.len() as int) == old(self)@.outbound,
            exists|fs: Seq<Fresh>|
                {
                    let (s, answers) = #[trigger] run_steps(
                        old(self)@.state,
                        old(self)@.inbound.items.take(processed as int),
                        fs,
                    );
                    &&& fs.len() == processed
                    &&& final(self)@.state == s
                    &&& answers.len() == processed
                    &&& forall|i: int|
                        0 <= i < processed ==> fits(
                            final(self)@.outbound[old(self)@.outbound.len() + i],
                            #[trigger] answers[i],
                        )
                },
    {
        let mut processed: usize = 0;
        let ghost mut fs: Seq<Fresh> = Seq::empty();
        let ghost start = self@;
        proof {
            assert(start.inbound.items.skip(0) =~= start.inbound.items);
            assert(start.inbound.items.take(0) =~= Seq::<DomainCommand>::empty());
            assert(self@.outbound.take(start.outbound.len() as int) =~= start.outbound);
        }
        while processed < self.batch_size
            invariant
                processed <= start.batch_size,
                processed <= start.inbound.items.len(),
                self.batch_size == start.batch_size,
                self@.inbound == (CommandQueueView {
                    items: start.inbound.items.skip(processed as int),
                    ..start.inbound
                }),
                self@.outbound.len() == start.outbound.len() + processed,
                self@.outbound.take(start.outbound.len() as int) == start.outbound,
                fs.len() == processed,
                ({
                    let (s, answers) = run_steps(
                        start.state,
                        start.inbound.items.take(processed as int),
                        fs,
                    );
                    &&& self@.state == s
                    &&& answers.len() == processed
                    &&& forall|i: int|
                        0 <= i < processed ==> fits(
                            self@.outbound[start.outbound.len() + i],
                            #[trigger] answers[i],
                        )
                }),
            ensures
                processed == vstd::math::min(
                    start.batch_size as int,
                    start.inbound.items.len() as int,
                ),
                self@.inbound == (CommandQueueView {
                    items: start.inbound.items.skip(processed as int),
                    ..start.inbound
                }),
                self@.outbound.len() == start.outbound.len() + processed,
                self@.outbound.take(start.outbound.len() as int) == start.outbound,
                fs.len() == processed,
                ({
                    let (s, answers) = run_steps(
                        start.state,
                        start.inbound.items.take(processed as int),
                        fs,
                    );
                    &&& self@.state == s
                    &&& answers.len() == processed
                    &&& forall|i: int|
                        0 <= i < processed ==> fits(
                            self@.outbound[start.outbound.len() + i],
                            #[trigger] answers[i],
                        )
                }),
            decreases start.batch_size - processed,
        {
            let ghost before = self@;
            match self.inbound.pop() {
                Some(cmd) => {
                    proof {
                        assert(start.inbound.items.skip(processed as int)[0] == start.inbound.items[processed as int]);
                    }
                    let ev = self.event_loop.handle_command(cmd);
                    let ghost f = choose|f: Fresh|
                        self@.state == before.state.step(cmd, f).0 && fits(
                            ev@,
                            #[trigger] before.state.step(cmd, f).1,
                        );
                    self.outbound.push(ev);
                    proof {
                        let items = start.inbound.items;
                        assert(items.take(processed + 1) =~= items.take(processed as int).push(cmd));
                        lemma_run_steps_push(start.state, items.take(processed as int), fs, cmd, f);
                        fs = fs.push(f);
                        assert(items.skip(processed as int).drop_first() =~= items.skip(processed + 1));
                        assert(self@.outbound =~= before.outbound.push(ev@));
                        assert(self@.outbound.take(start.outbound.len() as int) =~= start.outbound);
                    }
                    processed += 1;
                },
                None => {
                    break;
                },
            }
        }
        processed
    }

    /// Takes the events kept so far, oldest first.
    pub fn drain_events(&mut self) -> (events: Vec<DomainEvent>)
        ensures
            events@.map_values(|e: DomainEvent| e@) == old(self)@.outbound,
            final(self)@ == (DomainLoopView { outbound: Seq::empty(), ..old(self)@ }),
    {
        let mut taken: Vec<DomainEvent> = Vec::new();
        std::mem::swap(&mut taken, &mut self.outbound);
        proof {
            assert(self@.outbound =~= Seq::<crate::application::events::DomainEventView>::empty());
        }
        taken
    }

    /// The event loop, for queries.
    pub fn event_loop(&self) -> (l: &DomainEventLoop)
        ensures
            l@ == self@.state,
    {
        &self.event_loop
    }
}

} // verus!
