//! A mailbox: a bounded queue of messages with an identity.

use std::collections::VecDeque;
use vstd::prelude::*;

verus! {

/// Capacity of a mailbox built without an explicit one.
pub const DEFAULT_RING_BUFFER_SIZE: usize = 100;

/// The last `n` items of `s`, or all of `s` where it holds no more than `n`.
pub open spec fn retain_last<T>(s: Seq<T>, n: nat) -> Seq<T> {
    if s.len() <= n {
        s
    } else {
        s.subrange(s.len() - n, s.len() as int)
    }
}

/// Draws a random identifier with `uuid::Uuid::new_v4` and hands back its 128
/// bits as `Uuid::as_u128` packs them. The value is random; all that is claimed
/// is the version (4) and variant (RFC) marks that `new_v4` sets in every one.
#[verifier::external_body]
pub(crate) fn fresh_id() -> (id: u128)
    ensures
        is_random_id(id),
{
    uuid::Uuid::new_v4().as_u128()
}

/// A bounded mailbox. It keeps the newest `ring_buffer_size` messages: a message
/// that arrives at a full mailbox pushes the oldest one out.
pub struct Client<T: Clone> {
    id: u128,
    event_queue: VecDeque<T>,
    ring_buffer_size: usize,
}

impl<T: Clone> Default for Client<T> {
    fn default() -> (client: Self)
        ensures
            client.wf(),
            client.queue() == Seq::<T>::empty(),
            client.capacity() == DEFAULT_RING_BUFFER_SIZE,
            is_random_id(client.spec_id()),
    {
        Client {
            id: fresh_id(),
            event_queue: VecDeque::new(),
            ring_buffer_size: DEFAULT_RING_BUFFER_SIZE,
        }
    }
}

impl<T: Clone> Client<T> {
    /// The identity of the mailbox.
    pub closed spec fn spec_id(&self) -> u128 {
        self.id
    }

    /// The queued messages, oldest first.
    pub closed spec fn queue(&self) -> Seq<T> {
        self.event_queue@
    }

    /// The most messages the mailbox holds.
    pub closed spec fn capacity(&self) -> nat {
        self.ring_buffer_size as nat
    }

    /// The queue never holds more than the capacity.
    pub open spec fn wf(&self) -> bool {
        self.queue().len() <= self.capacity()
    }

    /// The two mailboxes have the same identity and the same capacity.
    pub open spec fn same_identity(&self, other: Self) -> bool {
        self.spec_id() == other.spec_id() && self.capacity() == other.capacity()
    }

    /// An empty mailbox of the default capacity with a fresh identity.
    pub fn new() -> (client: Self)
        ensures
            client.wf(),
            client.queue() == Seq::<T>::empty(),
            client.capacity() == DEFAULT_RING_BUFFER_SIZE,
            is_random_id(client.spec_id()),
    {
        Self::default()
    }

    /// An empty mailbox of capacity `size` with a fresh identity.
    pub fn with_ring_buffer_size(size: usize) -> (client: Self)
        ensures
            client.wf(),
            client.queue() == Seq::<T>::empty(),
            client.capacity() == size,
            is_random_id(client.spec_id()),
    {
        let mut client = Self::default();
        client.ring_buffer_size = size;
        client
    }

    /// The queued messages, oldest first.
    pub fn event_queue(&self) -> (queue: &VecDeque<T>)
        ensures
            queue@ == self.queue(),
    {
        &self.event_queue
    }

    /// The identity of the mailbox.
    pub fn id(&self) -> (id: u128)
        ensures
            id == self.spec_id(),
    {
        self.id
    }

    /// The most messages the mailbox holds.
    pub fn ring_buffer_size(&self) -> (size: usize)
        ensures
            size == self.capacity(),
    {
        self.ring_buffer_size
    }

    /// Takes the oldest message out of the mailbox.
    pub fn next_message(&mut self) -> (message: Option<T>)
        ensures
            message == oldest(old(self).queue()),
            final(self).queue() == without_oldest(old(self).queue()),
            final(self).spec_id() == old(self).spec_id(),
            final(self).capacity() == old(self).capacity(),
            old(self).wf() ==> final(self).wf(),
            message is None ==> *final(self) == *old(self),
    {
        if self.event_queue.len() == 0 {
            None
        } else {
            self.event_queue.pop_front()
        }
    }

    /// A copy of the oldest message; the mailbox keeps the message.
    pub fn peek_message(&self) -> (message: Option<T>)
        ensures
            is_copy_of_oldest(self.queue(), message),
    {
        if self.event_queue.len() == 0 {
            None
        } else {
            Some(self.event_queue[0].clone())
        }
    }

    /// Puts `message` at the back of the queue and, where the queue then holds
    /// more than the capacity, drops the oldest message.
    pub fn push(&mut self, message: T)
        requires
            old(self).wf(),
        ensures
            final(self).wf(),
            final(self).queue() == retain_last(old(self).queue().push(message), old(self).capacity()),
            final(self).spec_id() == old(self).spec_id(),
            final(self).capacity() == old(self).capacity(),
    {
        if self.ring_buffer_size == 0 {
            return ;
        }
        if self.event_queue.len() == self.ring_buffer_size {
            self.event_queue.pop_front();
        }
        self.event_queue.push_back(message);
    }
}

/// What `new_v4` marks in every identifier it draws: version 4, RFC variant.
pub open spec fn is_random_id(id: u128) -> bool {
    (id >> 76u128) & 0xfu128 == 4u128 && (id >> 62u128) & 0x3u128 == 2u128
}

/// The oldest message of a queue, if it holds one.
pub open spec fn oldest<T>(queue: Seq<T>) -> Option<T> {
    if queue.len() > 0 {
        Some(queue[0])
    } else {
        None
    }
}

/// The queue once its oldest message is taken; an empty queue stays empty.
pub open spec fn without_oldest<T>(queue: Seq<T>) -> Seq<T> {
    if queue.len() > 0 {
        queue.subrange(1, queue.len() as int)
    } else {
        queue
    }
}

/// `message` is what a peek may hand back for `queue`: nothing for an empty
/// queue, else a clone of the oldest message.
pub open spec fn is_copy_of_oldest<T: Clone>(queue: Seq<T>, message: Option<T>) -> bool {
    match (oldest(queue), message) {
        (Some(front), Some(copy)) => cloned(front, copy),
        (None, None) => true,
        _ => false,
    }
}

} // verus!
