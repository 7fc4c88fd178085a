//! The broker: a table from topics to the handles of the subscribed
//! mailboxes. It owns no mailbox. Dead handles are dropped when a publish or an
//! unsubscribe next walks the topic, and a topic leaves the table with its last
//! subscriber.

use crate::broker::arena::{ClientArena, ClientHandle};
use crate::broker::client::{retain_last, Client};
use std::marker::PhantomData;
use vstd::prelude::*;

verus! {

/// The subscribers of one topic, in the order in which they subscribed.
struct Subscription {
    topic: String,
    clients: Vec<ClientHandle>,
}

/// The registry of subscriptions for messages of type `T`.
pub struct Broker<T: Clone> {
    subscribers: Vec<Subscription>,
    payload: PhantomData<T>,
}

/// The handles of `clients` that still resolve in `arena`, in their order.
pub open spec fn live<T: Clone>(arena: &ClientArena<T>, clients: Seq<ClientHandle>) -> Seq<
    ClientHandle,
> {
    clients.filter(|handle: ClientHandle| arena.alive(handle))
}

/// The handles of `clients` that resolve in `arena` to a mailbox whose identity
/// is not `client_id`, in their order.
pub open spec fn live_others<T: Clone>(
    arena: &ClientArena<T>,
    clients: Seq<ClientHandle>,
    client_id: u128,
) -> Seq<ClientHandle> {
    clients.filter(
        |handle: ClientHandle| arena.alive(handle) && arena.client(handle).spec_id() != client_id,
    )
}

/// How many times `handle` stands in `clients`.
pub open spec fn occurrences(clients: Seq<ClientHandle>, handle: ClientHandle) -> nat {
    clients.filter(|other: ClientHandle| other == handle).len()
}

/// `copies` holds `n` clones of `message`.
pub open spec fn copies_of<T: Clone>(message: T, copies: Seq<T>, n: nat) -> bool {
    copies.len() == n && forall|i: int| 0 <= i < n ==> cloned(message, #[trigger] copies[i])
}

/// `after` is the mailbox `before` once a clone of `message` was delivered to it
/// `n` times: the same mailbox, its queue extended by the clones and cut back to
/// the newest messages that fit.
pub open spec fn received<T: Clone>(before: Client<T>, after: Client<T>, n: nat, message: T) -> bool {
    &&& after.same_identity(before)
    &&& exists|copies: Seq<T>| #[trigger]
        copies_of(message, copies, n) && after.queue() == retain_last(
            before.queue() + copies,
            before.capacity(),
        )
}

/// The table once `topic` is left with `kept`: the topic goes where nothing is
/// kept.
pub open spec fn with_subscribers(
    table: Map<Seq<char>, Seq<ClientHandle>>,
    topic: Seq<char>,
    kept: Seq<ClientHandle>,
) -> Map<Seq<char>, Seq<ClientHandle>> {
    if kept.len() == 0 {
        table.remove(topic)
    } else {
        table.insert(topic, kept)
    }
}

/// What is live of a list with one more handle at its end.
pub proof fn lemma_live_push<T: Clone>(
    arena: &ClientArena<T>,
    clients: Seq<ClientHandle>,
    handle: ClientHandle,
)
    ensures
        live(arena, clients.push(handle)) == if arena.alive(handle) {
            live(arena, clients).push(handle)
        } else {
            live(arena, clients)
        },
{
    reveal(Seq::filter);
    assert(clients.push(handle).drop_last() =~= clients);
}

proof fn lemma_live_others_push<T: Clone>(
    arena: &ClientArena<T>,
    clients: Seq<ClientHandle>,
    client_id: u128,
    handle: ClientHandle,
)
    ensures
        live_others(arena, clients.push(handle), client_id) == if arena.alive(handle)
            && arena.client(handle).spec_id() != client_id {
            live_others(arena, clients, client_id).push(handle)
        } else {
            live_others(arena, clients, client_id)
        },
{
    reveal(Seq::filter);
    assert(clients.push(handle).drop_last() =~= clients);
}

/// How often a handle stands in a list with one more handle at its end.
pub proof fn lemma_occurrences_push(
    clients: Seq<ClientHandle>,
    last: ClientHandle,
    handle: ClientHandle,
)
    ensures
        occurrences(clients.push(last), handle) == occurrences(clients, handle) + if last
            == handle {
            1nat
        } else {
            0nat
        },
{
    reveal(Seq::filter);
    assert(clients.push(last).drop_last() =~= clients);
}

/// Cutting back after each arrival keeps what cutting back once at the end
/// keeps.
pub proof fn lemma_retain_last_push<T>(queue: Seq<T>, message: T, n: nat)
    ensures
        retain_last(retain_last(queue, n).push(message), n) == retain_last(queue.push(message), n),
{
    assert(retain_last(retain_last(queue, n).push(message), n) =~= retain_last(
        queue.push(message),
        n,
    ));
}

impl<T: Clone> Default for Broker<T> {
    fn default() -> (broker: Self)
        ensures
            broker.wf(),
            broker@ == Map::<Seq<char>, Seq<ClientHandle>>::empty(),
    {
        Self::new()
    }
}

impl<T: Clone> Broker<T> {
    spec fn has_entry(&self, topic: Seq<char>) -> bool {
        exists|i: int| 0 <= i < self.subscribers@.len() && self.subscribers@[i].topic@ == topic
    }

    spec fn entry_of(&self, topic: Seq<char>) -> int {
        choose|i: int| 0 <= i < self.subscribers@.len() && self.subscribers@[i].topic@ == topic
    }

    /// The subscription table: each topic that has subscribers, with the
    /// handles subscribed to it in the order of their subscriptions.
    pub closed spec fn view(&self) -> Map<Seq<char>, Seq<ClientHandle>> {
        Map::new(
            |topic: Seq<char>| self.has_entry(topic),
            |topic: Seq<char>| self.subscribers@[self.entry_of(topic)].clients@,
        )
    }

    /// The table holds each topic once, and none without a subscriber.
    pub closed spec fn wf(&self) -> bool {
        &&& forall|i: int, j: int|
            0 <= i < j < self.subscribers@.len() ==> self.subscribers@[i].topic@
                != self.subscribers@[j].topic@
        &&& forall|i: int|
            0 <= i < self.subscribers@.len() ==> (#[trigger] self.subscribers@[i]).clients@.len()
                > 0
    }

    /// The subscribers of `topic`; none where the table does not hold it.
    pub open spec fn subscribers_of(&self, topic: Seq<char>) -> Seq<ClientHandle> {
        subscribed(self@, topic)
    }

    proof fn lemma_entries(&self)
        requires
            self.wf(),
        ensures
            forall|i: int|
                0 <= i < self.subscribers@.len() ==> {
                    &&& self@.dom().contains((#[trigger] self.subscribers@[i]).topic@)
                    &&& self@[self.subscribers@[i].topic@] == self.subscribers@[i].clients@
                },
            forall|topic: Seq<char>| #[trigger]
                self@.dom().contains(topic) ==> {
                    &&& 0 <= self.entry_of(topic) < self.subscribers@.len()
                    &&& self.subscribers@[self.entry_of(topic)].topic@ == topic
                },
    {
        assert forall|i: int| 0 <= i < self.subscribers@.len() implies {
            &&& self@.dom().contains((#[trigger] self.subscribers@[i]).topic@)
            &&& self@[self.subscribers@[i].topic@] == self.subscribers@[i].clients@
        } by {
            let topic = self.subscribers@[i].topic@;
            assert(self.has_entry(topic));
            let j = self.entry_of(topic);
            assert(j == i);
        }
    }

    /// No topic in the table is without a subscriber.
    pub proof fn lemma_no_empty_topic(&self)
        requires
            self.wf(),
        ensures
            forall|topic: Seq<char>| #[trigger]
                self@.dom().contains(topic) ==> self@[topic].len() > 0,
    {
        self.lemma_entries();
    }

    /// A broker with no subscription.
    pub fn new() -> (broker: Self)
        ensures
            broker.wf(),
            broker@ == Map::<Seq<char>, Seq<ClientHandle>>::empty(),
    {
        let broker = Broker { subscribers: Vec::new(), payload: PhantomData };
        assert(broker@ =~= Map::<Seq<char>, Seq<ClientHandle>>::empty());
        broker
    }

    fn position(&self, topic: &String) -> (found: Option<usize>)
        ensures
            match found {
                Some(i) => i < self.subscribers@.len() && self.subscribers@[i as int].topic@
                    == topic@,
                None => forall|i: int|
                    0 <= i < self.subscribers@.len() ==> self.subscribers@[i].topic@ != topic@,
            },
    {
        let mut i: usize = 0;
        while i < self.subscribers.len()
            invariant
                i <= self.subscribers@.len(),
                forall|j: int| 0 <= j < i ==> self.subscribers@[j].topic@ != topic@,
            decreases self.subscribers@.len() - i,
        {
            if self.subscribers[i].topic == *topic {
                return Some(i);
            }
            i += 1;
        }
        None
    }

    /// Whether the table holds `topic`.
    pub fn has_topic(&self, topic: &str) -> (held: bool)
        requires
            self.wf(),
        ensures
            held == self@.dom().contains(topic@),
    {
        let key = topic.to_owned();
        proof {
            self.lemma_entries();
        }
        self.position(&key).is_some()
    }

    /// The handles subscribed to `topic`, in the order of their subscriptions;
    /// none where the table does not hold the topic.
    pub fn subscribers(&self, topic: &str) -> (clients: Vec<ClientHandle>)
        requires
            self.wf(),
        ensures
            clients@ == self.subscribers_of(topic@),
    {
        let key = topic.to_owned();
        proof {
            self.lemma_entries();
        }
        let mut clients: Vec<ClientHandle> = Vec::new();
        match self.position(&key) {
            Some(i) => {
                let held = &self.subscribers[i].clients;
                let mut j: usize = 0;
                while j < held.len()
                    invariant
                        j <= held@.len(),
                        clients@ == held@.subrange(0, j as int),
                    decreases held@.len() - j,
                {
                    clients.push(held[j]);
                    proof {
                        assert(held@.subrange(0, j as int).push(held@[j as int]) =~= held@.subrange(
                            0,
                            j + 1,
                        ));
                    }
                    j += 1;
                }
                proof {
                    assert(held@.subrange(0, held@.len() as int) =~= held@);
                }
            },
            None => {},
        }
        clients
    }

    /// Adds `client` to the subscribers of `topic`, behind those already there.
    /// Nothing is looked up: a handle may stand under a topic more than once,
    /// and a dead one may be subscribed.
    pub fn subscribe(&mut self, topic: &str, client: &ClientHandle)
        requires
            old(self).wf(),
        ensures
            final(self).wf(),
            final(self)@ == old(self)@.insert(
                topic@,
                old(self).subscribers_of(topic@).push(*client),
            ),
    {
        let key = topic.to_owned();
        proof {
            old(self).lemma_entries();
        }
        match self.position(&key) {
            Some(i) => {
                self.subscribers[i].clients.push(*client);
                proof {
                    assert(self.subscribers@.len() == old(self).subscribers@.len());
                    assert(forall|j: int|
                        0 <= j < self.subscribers@.len() ==> (#[trigger] self.subscribers@[j]).topic@
                            == old(self).subscribers@[j].topic@);
                    assert(forall|j: int|
                        0 <= j < self.subscribers@.len() && j != i ==> (
                        #[trigger] self.subscribers@[j]).clients@
                            == old(self).subscribers@[j].clients@);
                    assert(self.subscribers@[i as int].clients@ == old(
                        self,
                    ).subscribers@[i as int].clients@.push(*client));
                    assert(self.wf());
                }
            },
            None => {
                let mut clients: Vec<ClientHandle> = Vec::new();
                clients.push(*client);
                self.subscribers.push(Subscription { topic: key, clients });
                proof {
                    assert(forall|j: int|
                        0 <= j < old(self).subscribers@.len() ==> (
                        #[trigger] self.subscribers@[j]) == old(self).subscribers@[j]);
                    assert(self.subscribers@[old(self).subscribers@.len() as int].topic@ == topic@);
                    assert(self.wf());
                }
            },
        }
        proof {
            self.lemma_entries();
            let target = old(self)@.insert(topic@, old(self).subscribers_of(topic@).push(*client));
            assert forall|k: Seq<char>| self@.dom().contains(k) <==> target.dom().contains(k) by {
                if self@.dom().contains(k) {
                    let j = self.entry_of(k);
                    if k != topic@ {
                        assert(old(self).subscribers@[j].topic@ == k);
                    }
                }
                if old(self)@.dom().contains(k) {
                    let j = old(self).entry_of(k);
                    assert(self.subscribers@[j].topic@ == k);
                }
            }
            assert forall|k: Seq<char>| self@.dom().contains(k) implies self@[k] == target[k] by {
                let j = self.entry_of(k);
                assert(self.subscribers@[j].topic@ == k);
                if j < old(self).subscribers@.len() {
                    assert(old(self).subscribers@[j].topic@ == k);
                }
            }
            assert(self@ =~= target);
        }
    }

    /// Leaves the topic at place `i` with the subscribers `kept`, and takes it
    /// out of the table where none is kept.
    fn settle(&mut self, i: usize, kept: Vec<ClientHandle>)
        requires
            old(self).wf(),
            i < old(self).subscribers@.len(),
        ensures
            final(self).wf(),
            final(self)@ == with_subscribers(
                old(self)@,
                old(self).subscribers@[i as int].topic@,
                kept@,
            ),
    {
        let ghost topic = self.subscribers@[i as int].topic@;
        let ghost target = with_subscribers(old(self)@, topic, kept@);
        proof {
            old(self).lemma_entries();
        }
        if kept.len() == 0 {
            self.subscribers.remove(i);
            proof {
                assert(forall|j: int|
                    0 <= j < i ==> (#[trigger] self.subscribers@[j]) == old(self).subscribers@[j]);
                assert(forall|j: int|
                    i <= j < self.subscribers@.len() ==> (#[trigger] self.subscribers@[j]) == old(
                        self,
                    ).subscribers@[j + 1]);
                assert(self.wf());
            }
        } else {
            self.subscribers[i].clients = kept;
            proof {
                assert(forall|j: int|
                    0 <= j < self.subscribers@.len() ==> (#[trigger] self.subscribers@[j]).topic@
                        == old(self).subscribers@[j].topic@);
                assert(forall|j: int|
                    0 <= j < self.subscribers@.len() && j != i ==> (
                    #[trigger] self.subscribers@[j]).clients@ == old(self).subscribers@[j].clients@);
                assert(self.wf());
            }
        }
        proof {
            self.lemma_entries();
            assert forall|k: Seq<char>| self@.dom().contains(k) <==> target.dom().contains(k) by {
                if self@.dom().contains(k) {
                    let j = self.entry_of(k);
                    if kept@.len() == 0 {
                        if j < i {
                            assert(old(self).subscribers@[j].topic@ == k);
                        } else {
                            assert(old(self).subscribers@[j + 1].topic@ == k);
                        }
                    } else {
                        assert(old(self).subscribers@[j].topic@ == k);
                    }
                }
                if old(self)@.dom().contains(k) && !(k == topic && kept@.len() == 0) {
                    let j = old(self).entry_of(k);
                    if kept@.len() == 0 {
                        if j < i {
                            assert(self.subscribers@[j].topic@ == k);
                        } else {
                            assert(self.subscribers@[j - 1].topic@ == k);
                        }
                    } else {
                        assert(self.subscribers@[j].topic@ == k);
                    }
                }
            }
            assert forall|k: Seq<char>| self@.dom().contains(k) implies self@[k] == target[k] by {
                let j = self.entry_of(k);
                if kept@.len() == 0 {
                    if j < i {
                        assert(old(self).subscribers@[j].topic@ == k);
                    } else {
                        assert(old(self).subscribers@[j + 1].topic@ == k);
                    }
                } else {
                    assert(old(self).subscribers@[j].topic@ == k);
                }
            }
            assert(self@ =~= target);
        }
    }

    /// The handles of `clients` that resolve to a mailbox other than those
    /// with identity `client_id`.
    fn others(arena: &ClientArena<T>, clients: &Vec<ClientHandle>, client_id: u128) -> (kept: Vec<
        ClientHandle,
    >)
        ensures
            kept@ == live_others(arena, clients@, client_id),
    {
        let mut kept: Vec<ClientHandle> = Vec::new();
        let mut i: usize = 0;
        proof {
            reveal(Seq::filter);
            assert(clients@.subrange(0, 0) =~= Seq::<ClientHandle>::empty());
        }
        while i < clients.len()
            invariant
                i <= clients@.len(),
                kept@ == live_others(arena, clients@.subrange(0, i as int), client_id),
            decreases clients@.len() - i,
        {
            let handle = clients[i];
            proof {
                lemma_live_others_push(arena, clients@.subrange(0, i as int), client_id, handle);
                assert(clients@.subrange(0, i as int).push(handle) =~= clients@.subrange(
                    0,
                    i + 1,
                ));
            }
            match arena.get(&handle) {
                Some(client) => {
                    if client.id() != client_id {
                        kept.push(handle);
                    }
                },
                None => {},
            }
            i += 1;
        }
        proof {
            assert(clients@.subrange(0, clients@.len() as int) =~= clients@);
        }
        kept
    }

    /// Takes from the subscribers of `topic` every handle that resolves to a
    /// mailbox with identity `client_id`, and every dead handle with them. An
    /// identity that is not subscribed is no error; a topic that the table does
    /// not hold is one.
    pub fn unsubscribe(&mut self, arena: &ClientArena<T>, topic: &str, client_id: u128) -> (result:
        Result<(), &'static str>)
        requires
            old(self).wf(),
        ensures
            final(self).wf(),
            match result {
                Ok(()) => {
                    &&& old(self)@.dom().contains(topic@)
                    &&& final(self)@ == with_subscribers(
                        old(self)@,
                        topic@,
                        live_others(arena, old(self)@[topic@], client_id),
                    )
                },
                Err(error) => {
                    &&& !old(self)@.dom().contains(topic@)
                    &&& final(self)@ == old(self)@
                    &&& error@ == TOPIC_NOT_FOUND@
                },
            },
    {
        let key = topic.to_owned();
        proof {
            old(self).lemma_entries();
        }
        match self.position(&key) {
            Some(i) => {
                let kept = Self::others(arena, &self.subscribers[i].clients, client_id);
                self.settle(i, kept);
                Ok(())
            },
            None => Err(TOPIC_NOT_FOUND),
        }
    }

    /// Delivers a clone of `message` to each mailbox of `clients` that is still
    /// there, once for each time its handle stands in the list, and hands back
    /// the handles that resolved.
    fn deliver(arena: &mut ClientArena<T>, clients: &Vec<ClientHandle>, message: &T) -> (kept: Vec<
        ClientHandle,
    >)
        requires
            old(arena).wf(),
        ensures
            final(arena).wf(),
            kept@ == live(old(arena), clients@),
            fanned_out(old(arena), final(arena), clients@, *message),
    {
        let mut kept: Vec<ClientHandle> = Vec::new();
        let mut i: usize = 0;
        proof {
            reveal(Seq::filter);
            assert(clients@.subrange(0, 0) =~= Seq::<ClientHandle>::empty());
            assert forall|handle: ClientHandle| #[trigger] old(arena).alive(handle) implies received(
                old(arena).client(handle),
                arena.client(handle),
                occurrences(clients@.subrange(0, 0), handle),
                *message,
            ) by {
                let none = Seq::<T>::empty();
                let queue = arena.client(handle).queue();
                assert(queue + none =~= queue);
                assert(copies_of(*message, none, 0));
            }
        }
        while i < clients.len()
            invariant
                i <= clients@.len(),
                arena.wf(),
                kept@ == live(old(arena), clients@.subrange(0, i as int)),
                fanned_out(old(arena), arena, clients@.subrange(0, i as int), *message),
            decreases clients@.len() - i,
        {
            let handle = clients[i];
            let ghost before = *arena;
            let ghost seen = clients@.subrange(0, i as int);
            proof {
                lemma_live_push(old(arena), seen, handle);
                assert(seen.push(handle) =~= clients@.subrange(0, i + 1));
            }
            if arena.is_alive(&handle) {
                let copy = message.clone();
                arena.push(&handle, copy);
                kept.push(handle);
                proof {
                    assert forall|other: ClientHandle| #[trigger]
                        arena.alive(other) == old(arena).alive(other) by {
                        other.lemma_same_place_same_handle(handle);
                        assert(before.alive(other) == old(arena).alive(other));
                    }
                    assert forall|other: ClientHandle| #[trigger]
                        old(arena).alive(other) implies received(
                        old(arena).client(other),
                        arena.client(other),
                        occurrences(seen.push(handle), other),
                        *message,
                    ) by {
                        lemma_occurrences_push(seen, handle, other);
                        other.lemma_same_place_same_handle(handle);
                        assert(received(
                            old(arena).client(other),
                            before.client(other),
                            occurrences(seen, other),
                            *message,
                        ));
                        if other == handle {
                            let start = old(arena).client(other);
                            let n = occurrences(seen, other);
                            let copies = choose|copies: Seq<T>| #[trigger]
                                copies_of(*message, copies, n) && before.client(other).queue()
                                    == retain_last(start.queue() + copies, start.capacity());
                            let more = copies.push(copy);
                            lemma_retain_last_push(start.queue() + copies, copy, start.capacity());
                            assert((start.queue() + copies).push(copy) =~= start.queue() + more);
                            assert(copies_of(*message, more, n + 1));
                        } else {
                            assert(arena@[other.index()] == before@[other.index()]);
                        }
                    }
                }
            } else {
                proof {
                    assert forall|other: ClientHandle| #[trigger]
                        old(arena).alive(other) implies received(
                        old(arena).client(other),
                        arena.client(other),
                        occurrences(seen.push(handle), other),
                        *message,
                    ) by {
                        lemma_occurrences_push(seen, handle, other);
                    }
                }
            }
            i += 1;
        }
        proof {
            assert(clients@.subrange(0, clients@.len() as int) =~= clients@);
        }
        kept
    }

    /// Delivers a clone of `message` to every mailbox subscribed to `topic`,
    /// once for each of its subscriptions; a full mailbox drops its oldest
    /// message for it. Dead handles leave the topic, and the topic leaves the
    /// table where no subscriber is left. A topic that the table does not hold
    /// gets nothing done.
    pub fn publish(&mut self, arena: &mut ClientArena<T>, topic: &str, message: T)
        requires
            old(self).wf(),
            old(arena).wf(),
        ensures
            final(self).wf(),
            final(arena).wf(),
            published(old(self)@, old(arena), topic@, message, final(self)@, final(arena)),
    {
        let key = topic.to_owned();
        proof {
            old(self).lemma_entries();
        }
        match self.position(&key) {
            Some(i) => {
                let kept = Self::deliver(arena, &self.subscribers[i].clients, &message);
                self.settle(i, kept);
            },
            None => {
                proof {
                    lemma_nothing_fanned_out(arena, message);
                }
            },
        }
    }
}

/// The error of an unsubscribe from a topic that the table does not hold.
pub const TOPIC_NOT_FOUND: &'static str = "TopicNotFound";

/// `after` is the arena `before` once a clone of `message` was delivered to the
/// mailbox behind each handle of `clients` that resolves: the same slots hold
/// the same mailboxes, and each of them received as many clones as its handle
/// stands in `clients`.
pub open spec fn fanned_out<T: Clone>(
    before: &ClientArena<T>,
    after: &ClientArena<T>,
    clients: Seq<ClientHandle>,
    message: T,
) -> bool {
    &&& after@.len() == before@.len()
    &&& forall|handle: ClientHandle| #[trigger] after.alive(handle) == before.alive(handle)
    &&& forall|handle: ClientHandle| #[trigger]
        before.alive(handle) ==> received(
            before.client(handle),
            after.client(handle),
            occurrences(clients, handle),
            message,
        )
}

/// The subscribers of `topic` in `table`; none where the table does not hold
/// the topic.
pub open spec fn subscribed(table: Map<Seq<char>, Seq<ClientHandle>>, topic: Seq<char>) -> Seq<
    ClientHandle,
> {
    if table.dom().contains(topic) {
        table[topic]
    } else {
        Seq::empty()
    }
}

/// What a publish of `message` under `topic` makes of a table and an arena:
/// the subscribers of the topic that are still there receive a clone each, the
/// dead ones leave the topic, and the topic leaves the table where none is
/// left. Where the table does not hold the topic, nothing changes.
pub open spec fn published<T: Clone>(
    table: Map<Seq<char>, Seq<ClientHandle>>,
    arena: &ClientArena<T>,
    topic: Seq<char>,
    message: T,
    table_after: Map<Seq<char>, Seq<ClientHandle>>,
    arena_after: &ClientArena<T>,
) -> bool {
    &&& table_after == if table.dom().contains(topic) {
        with_subscribers(table, topic, live(arena, table[topic]))
    } else {
        table
    }
    &&& fanned_out(arena, arena_after, subscribed(table, topic), message)
    &&& !table.dom().contains(topic) ==> arena_after@ == arena@
}

/// What publishing the `items`, each a topic and a message, one after the
/// other in their order makes of a table and an arena.
pub open spec fn published_all<T: Clone>(
    table: Map<Seq<char>, Seq<ClientHandle>>,
    arena: &ClientArena<T>,
    items: Seq<(Seq<char>, T)>,
    table_after: Map<Seq<char>, Seq<ClientHandle>>,
    arena_after: &ClientArena<T>,
) -> bool
    decreases items.len(),
{
    if items.len() == 0 {
        table_after == table && arena_after@ == arena@
    } else {
        exists|table_between: Map<Seq<char>, Seq<ClientHandle>>, arena_between: ClientArena<T>|
            published_all(
                table,
                arena,
                items.drop_last(),
                table_between,
                &arena_between,
            ) && #[trigger] published(
                table_between,
                &arena_between,
                items.last().0,
                items.last().1,
                table_after,
                arena_after,
            )
    }
}

/// An arena that no message reached is one that a message was fanned out to
/// over no subscriber.
pub proof fn lemma_nothing_fanned_out<T: Clone>(arena: &ClientArena<T>, message: T)
    requires
        arena.wf(),
    ensures
        fanned_out(arena, arena, Seq::<ClientHandle>::empty(), message),
{
    reveal(Seq::filter);
    assert forall|handle: ClientHandle| #[trigger] arena.alive(handle) implies received(
        arena.client(handle),
        arena.client(handle),
        occurrences(Seq::<ClientHandle>::empty(), handle),
        message,
    ) by {
        let none = Seq::<T>::empty();
        let queue = arena.client(handle).queue();
        assert(queue + none =~= queue);
        assert(copies_of(message, none, 0));
    }
}

} // verus!
