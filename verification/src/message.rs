//! FIFO message channels connecting independently scheduled systems.
//!
//! The ordering logic lives in [`MessageQueue`], a verified unbounded
//! first-in first-out buffer.  A connected [`MessageSender`] /
//! [`MessageReceiver`] pair shares one such buffer behind a
//! reader-writer lock, so that any number of sender handles may feed
//! the single receiving system.

use std::collections::VecDeque;
use std::sync::Arc;
use vstd::prelude::*;
use vstd::rwlock::RwLock;

use crate::lock::AnyState;

verus! {

/// Marker for values that a message channel can carry.
pub trait Message: Sized {
}

/// Unbounded first-in first-out buffer of pending messages.
pub struct MessageQueue<M: Message> {
    items: VecDeque<M>,
}

impl<M: Message> View for MessageQueue<M> {
    type V = Seq<M>;

    closed spec fn view(&self) -> Seq<M> {
        self.items@
    }
}

impl<M: Message> MessageQueue<M> {
    /// Creates a connected sender/receiver pair over one empty queue.
    pub fn new() -> (pair: (MessageSender<M>, MessageReceiver<M>)) {
        let queue = MessageQueue { items: VecDeque::new() };
        let lock = Arc::new(RwLock::new(queue, Ghost(AnyState)));
        let reader = lock.clone();
        (MessageSender(lock), MessageReceiver(reader))
    }

    /// An empty buffer, for callers that drive a queue directly.
    pub fn empty() -> (q: Self)
        ensures
            q@ == Seq::<M>::empty(),
    {
        MessageQueue { items: VecDeque::new() }
    }

    /// Appends one message at the back of the queue.
    pub fn send(&mut self, message: M)
        ensures
            final(self)@ == old(self)@.push(message),
    {
        self.items.push_back(message);
    }

    /// Removes and returns the oldest message, if one is queued.
    pub fn next_message(&mut self) -> (m: Option<M>)
        ensures
            match m {
                Some(x) => old(self)@.len() > 0 && x == old(self)@[0] && final(self)@
                    == old(self)@.drop_first(),
                None => old(self)@.len() == 0 && final(self)@ == old(self)@,
            },
    {
        self.items.pop_front()
    }

    /// Number of messages currently queued.
    pub fn len(&self) -> (n: usize)
        ensures
            n == self@.len(),
    {
        self.items.len()
    }

    /// Removes every queued message and returns them in send order.
    pub fn drain(&mut self) -> (drained: Vec<M>)
        ensures
            drained@ == old(self)@,
            final(self)@ == Seq::<M>::empty(),
    {
        let ghost orig = self.items@;
        let mut drained: Vec<M> = Vec::new();
        loop
            invariant
                orig == drained@ + self.items@,
            ensures
                orig == drained@ + self.items@,
                self.items@.len() == 0,
            decreases self.items@.len(),
        {
            match self.items.pop_front() {
                Some(message) => {
                    drained.push(message);
                },
                None => {
                    break ;
                },
            }
        }
        proof {
            assert(drained@ + self.items@ =~= drained@);
        }
        drained
    }
}

/// First-in first-out delivery: three messages sent in order stand in the
/// queue in that same order, so one drain hands them back in send order.
pub proof fn lemma_fifo_delivery<M>(q0: Seq<M>, m1: M, m2: M, m3: M)
    requires
        q0 == Seq::<M>::empty(),
    ensures
        q0.push(m1).push(m2).push(m3) =~= seq![m1, m2, m3],
{
}

/// Cloneable handle that feeds messages into one shared queue.
pub struct MessageSender<M: Message>(Arc<RwLock<MessageQueue<M>, AnyState>>);

impl<M: Message> MessageSender<M> {
    /// Enqueues one message.  The call never blocks observably and never
    /// fails; which messages from other senders surround it is decided by
    /// the arrival order at the shared queue.
    pub fn send(&mut self, message: M) {
        let (mut queue, handle) = self.0.acquire_write();
        queue.send(message);
        handle.release_write(queue);
    }
}

impl<M: Message> Clone for MessageSender<M> {
    fn clone(&self) -> Self {
        MessageSender(self.0.clone())
    }
}

/// Single owner of the receiving side of one shared queue.
pub struct MessageReceiver<M: Message>(Arc<RwLock<MessageQueue<M>, AnyState>>);

impl<M: Message> MessageReceiver<M> {
    /// Removes and returns the oldest queued message, without waiting.
    pub fn next_message(&mut self) -> (m: Option<M>) {
        let (mut queue, handle) = self.0.acquire_write();
        let message = queue.next_message();
        handle.release_write(queue);
        message
    }

    /// Removes every message queued at the moment of the call and returns
    /// them in send order; returns at once when the queue is empty.
    pub fn messages(&mut self) -> (drained: Vec<M>) {
        let (mut queue, handle) = self.0.acquire_write();
        let drained = queue.drain();
        handle.release_write(queue);
        drained
    }
}

} // verus!
