//! The arena that owns the mailboxes. A broker refers to a mailbox by a handle
//! into the arena and never owns one: once the owner takes a mailbox out, every
//! handle to it is dead for good. A handle names a slot of the arena that gave
//! it out and means nothing to another arena.

use crate::broker::client::{is_copy_of_oldest, oldest, retain_last, without_oldest, Client};
use std::collections::VecDeque;
use vstd::prelude::*;

verus! {

/// A reference to a mailbox that does not own it. Handles are plain values:
/// copying one makes no new mailbox and dropping one frees none.
#[derive(Clone, Copy, Debug, PartialEq, Eq, Structural)]
pub struct ClientHandle {
    slot: usize,
}

impl ClientHandle {
    /// The place in the arena that the handle names.
    pub closed spec fn index(&self) -> int {
        self.slot as int
    }

    /// A handle is its place in the arena and nothing more: two handles to one
    /// place are the same handle.
    pub proof fn lemma_same_place_same_handle(self, other: ClientHandle)
        ensures
            self.index() == other.index() <==> self == other,
    {
    }
}

/// The owner of the mailboxes. Each mailbox gets a slot of its own; a slot is
/// never given out twice.
pub struct ClientArena<T: Clone> {
    slots: Vec<Option<Client<T>>>,
}

impl<T: Clone> ClientArena<T> {
    /// The slots given out so far; `None` where the mailbox has been taken out.
    pub closed spec fn view(&self) -> Seq<Option<Client<T>>> {
        self.slots@
    }

    /// Every mailbox in the arena keeps within its capacity.
    pub open spec fn wf(&self) -> bool {
        forall|i: int| 0 <= i < self@.len() && self@[i] is Some ==> (#[trigger] self@[i])->0.wf()
    }

    /// The handle resolves to a mailbox.
    pub open spec fn alive(&self, handle: ClientHandle) -> bool {
        0 <= handle.index() < self@.len() && self@[handle.index()] is Some
    }

    /// The mailbox that a live handle resolves to.
    pub open spec fn client(&self, handle: ClientHandle) -> Client<T>
        recommends
            self.alive(handle),
    {
        self@[handle.index()]->0
    }

    /// An arena with no mailbox.
    pub fn new() -> (arena: Self)
        ensures
            arena.wf(),
            arena@ == Seq::<Option<Client<T>>>::empty(),
    {
        ClientArena { slots: Vec::new() }
    }

    /// Moves `client` into the arena and hands back the handle to it.
    pub fn insert(&mut self, client: Client<T>) -> (handle: ClientHandle)
        requires
            old(self).wf(),
            client.wf(),
        ensures
            final(self).wf(),
            handle.index() == old(self)@.len(),
            final(self)@ == old(self)@.push(Some(client)),
    {
        let slot = self.slots.len();
        self.slots.push(Some(client));
        ClientHandle { slot }
    }

    /// Takes the mailbox out of the arena and gives it back to its owner. The
    /// handle, and every copy of it, is dead from then on.
    pub fn remove(&mut self, handle: &ClientHandle) -> (client: Option<Client<T>>)
        requires
            old(self).wf(),
        ensures
            final(self).wf(),
            client == if old(self).alive(*handle) {
                Some(old(self).client(*handle))
            } else {
                None
            },
            final(self)@ == if old(self).alive(*handle) {
                old(self)@.update(handle.index(), None)
            } else {
                old(self)@
            },
    {
        if handle.slot < self.slots.len() {
            let taken = self.slots[handle.slot].take();
            taken
        } else {
            None
        }
    }

    /// The mailbox behind `handle`, if it is still there.
    pub fn get(&self, handle: &ClientHandle) -> (client: Option<&Client<T>>)
        ensures
            client == if self.alive(*handle) {
                Some(&self.client(*handle))
            } else {
                None
            },
    {
        if handle.slot < self.slots.len() {
            self.slots[handle.slot].as_ref()
        } else {
            None
        }
    }

    /// Whether the handle still resolves to a mailbox.
    pub fn is_alive(&self, handle: &ClientHandle) -> (alive: bool)
        ensures
            alive == self.alive(*handle),
    {
        handle.slot < self.slots.len() && self.slots[handle.slot].is_some()
    }

    /// Takes the oldest message out of the mailbox behind `handle`. A dead
    /// handle gives `None` and changes nothing.
    pub fn next_message(&mut self, handle: &ClientHandle) -> (message: Option<T>)
        requires
            old(self).wf(),
        ensures
            final(self).wf(),
            final(self).same_but(old(self), *handle),
            final(self).alive(*handle) == old(self).alive(*handle),
            !old(self).alive(*handle) ==> message is None,
            message is None ==> final(self)@ == old(self)@,
            old(self).alive(*handle) ==> {
                &&& message == oldest(old(self).client(*handle).queue())
                &&& final(self).client(*handle).queue() == without_oldest(
                    old(self).client(*handle).queue(),
                )
                &&& final(self).client(*handle).same_identity(old(self).client(*handle))
            },
    {
        let message = if handle.slot < self.slots.len() {
            match &mut self.slots[handle.slot] {
                Some(client) => client.next_message(),
                None => None,
            }
        } else {
            None
        };
        proof {
            if message is None {
                assert(self@ =~= old(self)@);
            }
        }
        message
    }

    /// A copy of the oldest message of the mailbox behind `handle`; `None` for
    /// an empty mailbox and for a dead handle.
    pub fn peek_message(&self, handle: &ClientHandle) -> (message: Option<T>)
        ensures
            !self.alive(*handle) ==> message is None,
            self.alive(*handle) ==> is_copy_of_oldest(self.client(*handle).queue(), message),
    {
        match self.get(handle) {
            Some(client) => client.peek_message(),
            None => None,
        }
    }

    /// Delivers `message` to the mailbox behind `handle`, which drops its
    /// oldest message where it is full. A dead handle changes nothing.
    pub fn push(&mut self, handle: &ClientHandle, message: T)
        requires
            old(self).wf(),
        ensures
            final(self).wf(),
            final(self).same_but(old(self), *handle),
            final(self).alive(*handle) == old(self).alive(*handle),
            !old(self).alive(*handle) ==> final(self)@ == old(self)@,
            old(self).alive(*handle) ==> {
                &&& final(self).client(*handle).queue() == retain_last(
                    old(self).client(*handle).queue().push(message),
                    old(self).client(*handle).capacity(),
                )
                &&& final(self).client(*handle).same_identity(old(self).client(*handle))
            },
    {
        if handle.slot < self.slots.len() {
            match &mut self.slots[handle.slot] {
                Some(client) => client.push(message),
                None => {},
            }
        }
    }

    /// Takes every message out of the mailbox behind `handle`, oldest first. A
    /// dead handle gives none.
    pub fn drain(&mut self, handle: &ClientHandle) -> (messages: VecDeque<T>)
        requires
            old(self).wf(),
        ensures
            final(self).wf(),
            final(self).same_but(old(self), *handle),
            final(self).alive(*handle) == old(self).alive(*handle),
            !old(self).alive(*handle) ==> messages@.len() == 0 && final(self)@ == old(self)@,
            old(self).alive(*handle) ==> {
                &&& messages@ == old(self).client(*handle).queue()
                &&& final(self).client(*handle).queue().len() == 0
                &&& final(self).client(*handle).same_identity(old(self).client(*handle))
            },
    {
        let mut messages: VecDeque<T> = VecDeque::new();
        let mut more = true;
        while more
            invariant
                self.wf(),
                self.same_but(old(self), *handle),
                self.alive(*handle) == old(self).alive(*handle),
                !old(self).alive(*handle) ==> messages@.len() == 0 && self@ == old(self)@,
                old(self).alive(*handle) ==> {
                    &&& messages@ + self.client(*handle).queue() == old(self).client(
                        *handle,
                    ).queue()
                    &&& self.client(*handle).same_identity(old(self).client(*handle))
                    &&& !more ==> self.client(*handle).queue().len() == 0
                },
            decreases
                    (if more {
                        1int
                    } else {
                        0int
                    }) + if self.alive(*handle) {
                        self.client(*handle).queue().len() as int
                    } else {
                        0int
                    },
        {
            let ghost before = *self;
            match self.next_message(handle) {
                Some(message) => {
                    messages.push_back(message);
                    proof {
                        let queue = before.client(*handle).queue();
                        assert(seq![queue[0]] + queue.subrange(1, queue.len() as int) =~= queue);
                        assert(messages@ + self.client(*handle).queue() =~= old(self).client(
                            *handle,
                        ).queue());
                    }
                },
                None => {
                    more = false;
                },
            }
        }
        proof {
            if old(self).alive(*handle) {
                assert(messages@ + self.client(*handle).queue() =~= messages@);
            }
        }
        messages
    }

    /// The two arenas have the same slots, and each slot but the one of
    /// `handle` holds the same in both.
    pub open spec fn same_but(&self, other: &Self, handle: ClientHandle) -> bool {
        &&& self@.len() == other@.len()
        &&& forall|i: int|
            0 <= i < self@.len() && i != handle.index() ==> #[trigger] self@[i] == other@[i]
    }
}

} // verus!
