//! A bounded first-in first-out queue of commands.

use vstd::prelude::*;
use std::collections::VecDeque;
use crate::application::commands::DomainCommand;
use crate::text::{decimal, decimal_string};

verus! {

/// Why a queue refused an item.
#[derive(Debug, Clone, Copy, PartialEq, Eq, Structural)]
pub enum QueueError {
    /// The queue already holds `max` items.
    Full { max: usize },
}

impl QueueError {
    /// The error's message, such as "Queue is full (max size: 2)".
    pub open spec fn message_spec(self) -> Seq<char> {
        match self {
            QueueError::Full { max } => "Queue is full (max size: "@ + decimal(max as nat) + ")"@,
        }
    }

    /// The error's message text.
    pub fn message(&self) -> (s: String)
        ensures
            s@ == self.message_spec(),
    {
        match self {
            QueueError::Full { max } => String::from_str("Queue is full (max size: ").concat(
                decimal_string(*max as u64).as_str(),
            ).concat(")"),
        }
    }
}

/// What a queue is: the items waiting, oldest first, and how many it may hold.
pub struct CommandQueueView {
    pub items: Seq<DomainCommand>,
    pub max_size: usize,
}

impl CommandQueueView {
    /// The queue after `x` is pushed: added at the back, unless the queue
    /// is full.
    pub open spec fn after_push(self, x: DomainCommand) -> CommandQueueView {
        if self.items.len() >= self.max_size {
            self
        } else {
            CommandQueueView { items: self.items.push(x), ..self }
        }
    }
}

/// A queue never holds more than its capacity, and it is first in, first
/// out: a pushed item goes to the back, behind everything already there,
/// and the front item is the oldest.
pub proof fn lemma_queue_laws(q: CommandQueueView, x: DomainCommand)
    requires
        q.items.len() <= q.max_size,
    ensures
        q.after_push(x).items.len() <= q.max_size,
        q.items.len() < q.max_size ==> q.after_push(x).items == q.items.push(x),
        q.items.len() > 0 ==> q.after_push(x).items[0] == q.items[0],
{
}

/// A synchronous command queue (no async, works in any runtime) that holds
/// at most `max_size` commands.
#[derive(Debug)]
pub struct CommandQueue {
    queue: VecDeque<DomainCommand>,
    max_size: usize,
}

impl View for CommandQueue {
    type V = CommandQueueView;

    closed spec fn view(&self) -> CommandQueueView {
        CommandQueueView { items: self.queue@, max_size: self.max_size }
    }
}

impl Default for CommandQueue {
    /// A queue that holds up to 100 commands.
    fn default() -> (q: Self)
        ensures
            q@.items == Seq::<DomainCommand>::empty(),
            q@.max_size == 100,
    {
        Self::new(100)
    }
}

impl CommandQueue {
    /// An empty queue that holds up to `max_size` commands.
    pub fn new(max_size: usize) -> (q: Self)
        ensures
            q@.items == Seq::<DomainCommand>::empty(),
            q@.max_size == max_size,
    {
        CommandQueue { queue: VecDeque::new(), max_size }
    }

    /// Appends a command; refused, with nothing changed, when the queue is full.
    pub fn push(&mut self, cmd: DomainCommand) -> (r: Result<(), QueueError>)
        ensures
            old(self)@.items.len() >= old(self)@.max_size ==> r == Err::<(), QueueError>(
                QueueError::Full { max: old(self)@.max_size },
            ) && final(self)@ == old(self)@,
            final(self)@ == old(self)@.after_push(cmd),
            old(self)@.items.len() < old(self)@.max_size ==> r == Ok::<(), QueueError>(())
                && final(self)@ == (CommandQueueView {
                items: old(self)@.items.push(cmd),
                ..old(self)@
            }),
    {
        if self.queue.len() >= self.max_size {
            return Err(QueueError::Full { max: self.max_size });
        }
        self.queue.push_back(cmd);
        Ok(())
    }

    /// Takes the oldest command, if any.
    pub fn pop(&mut self) -> (c: Option<DomainCommand>)
        ensures
            old(self)@.items.len() == 0 ==> c is None && final(self)@ == old(self)@,
            old(self)@.items.len() > 0 ==> c == Some(old(self)@.items[0]) && final(self)@ == (
            CommandQueueView { items: old(self)@.items.drop_first(), ..old(self)@ }),
    {
        let c = self.queue.pop_front();
        proof {
            if c is Some {
                assert(self.queue@ =~= old(self)@.items.drop_first());
            }
        }
        c
    }

    /// Takes all commands, oldest first.
    pub fn drain(&mut self) -> (v: Vec<DomainCommand>)
        ensures
            v@ == old(self)@.items,
            final(self)@ == (CommandQueueView { items: Seq::empty(), ..old(self)@ }),
    {
        let mut v: Vec<DomainCommand> = Vec::new();
        while self.queue.len() > 0
            invariant
                v@ + self.queue@ == old(self)@.items,
                self.max_size == old(self)@.max_size,
            decreases self.queue@.len(),
        {
            match self.queue.pop_front() {
                Some(c) => {
                    v.push(c);
                    proof {
                        assert(v@ + self.queue@ =~= old(self)@.items);
                    }
                },
                None => {},
            }
        }
        proof {
            assert(v@ =~= old(self)@.items);
            assert(self.queue@ =~= Seq::<DomainCommand>::empty());
        }
        v
    }

    pub fn len(&self) -> (n: usize)
        ensures
            n == self@.items.len(),
    {
        self.queue.len()
    }

    pub fn is_empty(&self) -> (b: bool)
        ensures
            b == (self@.items.len() == 0),
    {
        self.queue.len() == 0
    }

    /// How many commands the queue may hold.
    pub fn capacity(&self) -> (n: usize)
        ensures
            n == self@.max_size,
    {
        self.max_size
    }
}

} // verus!
